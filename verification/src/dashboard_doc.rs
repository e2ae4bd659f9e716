//! The HTML document of the dashboard viewer: the sections of the groups
//! (each with its card slots and nested groups) in one walk over the layout,
//! and the page around them.

use vstd::prelude::*;
use crate::dashboard::{DashboardGroup, DashboardItem, groups_ids, group_tree_ids};
use crate::dashboard_view::{body_theme, card_slot, card_slot_html, group_section, group_section_html, groups_area};
use crate::text::strings_view;

verus! {

/// The card slots of `items`, the card HTML of each taken from `cards` in
/// order, joined without separator.
pub open spec fn slots_html(items: Seq<DashboardItem>, cards: Seq<Seq<char>>) -> Seq<char>
    decreases items.len(),
{
    if items.len() == 0 {
        Seq::empty()
    } else {
        slots_html(items.drop_last(), cards.take(items.len() - 1)) + card_slot_html(
            items.last().indicator_id@,
            cards[items.len() - 1],
        )
    }
}

/// The sections of a list of groups, joined without separator: `cards` holds
/// the card HTML of every card in display order (see `groups_ids`); `root`
/// tells whether these are top-level groups.
pub open spec fn sections_html(gs: Seq<DashboardGroup>, root: bool, cards: Seq<Seq<char>>) -> Seq<char>
    decreases gs,
{
    if gs.len() == 0 {
        Seq::empty()
    } else {
        let k = groups_ids(gs.drop_last()).len() as int;
        sections_html(gs.drop_last(), root, cards.take(k)) + section_html(gs.last(), root, cards.skip(k))
    }
}

/// The section of one group: its heading, the slots of its own cards (their
/// HTML first in `cards`), then the sections of its nested groups.
pub open spec fn section_html(g: DashboardGroup, root: bool, cards: Seq<Seq<char>>) -> Seq<char>
    decreases g,
{
    let n = g.items@.len() as int;
    group_section_html(
        g.title@,
        if root { 0nat } else { 1nat },
        slots_html(g.items@, cards.take(n)),
        n > 0,
        sections_html(g.subgroups@, false, cards.skip(n)),
    )
}

proof fn lemma_tree_len(g: DashboardGroup)
    ensures
        group_tree_ids(g).len() == g.items@.len() + groups_ids(g.subgroups@).len(),
{
}

/// Renders the sections of `groups` at `depth` (0 for the top level), taking
/// the card HTML from `cards` starting at `start`, in display order; returns
/// the HTML and the position after the last card used.
pub fn render_groups_html(groups: &Vec<DashboardGroup>, depth: usize, cards: &Vec<String>, start: usize) -> (r: (
    String,
    usize,
))
    requires
        start + groups_ids(groups@).len() <= cards@.len(),
    ensures
        r.1 == start + groups_ids(groups@).len(),
        r.0@ == sections_html(groups@, depth == 0, strings_view(cards@).subrange(start as int, r.1 as int)),
    decreases groups@,
{
    let ghost sv = strings_view(cards@);
    let total = cards.len();
    let mut out = String::new();
    let mut pos = start;
    let mut i: usize = 0;
    assert(groups@.take(0) =~= Seq::<DashboardGroup>::empty());
    while i < groups.len()
        invariant
            i <= groups.len(),
            sv == strings_view(cards@),
            total == cards@.len(),
            start + groups_ids(groups@).len() <= cards@.len(),
            pos == start + groups_ids(groups@.take(i as int)).len(),
            out@ == sections_html(groups@.take(i as int), depth == 0, sv.subrange(start as int, pos as int)),
        decreases groups.len() - i,
    {
        let g = &groups[i];
        proof {
            assert(groups@.take(i + 1).drop_last() =~= groups@.take(i as int));
            assert(groups_ids(groups@.take(i + 1)) == groups_ids(groups@.take(i as int)) + group_tree_ids(*g));
            lemma_groups_ids_prefix(groups@, i as int + 1);
            lemma_tree_len(*g);
        }
        let items_start = pos;
        let mut slots = String::new();
        let mut j: usize = 0;
        assert(g.items@.take(0) =~= Seq::<DashboardItem>::empty());
        while j < g.items.len()
            invariant
                j <= g.items.len(),
                sv == strings_view(cards@),
                total == cards@.len(),
                items_start + g.items@.len() <= cards@.len(),
                slots@ == slots_html(g.items@.take(j as int), sv.subrange(items_start as int, items_start + j)),
            decreases g.items.len() - j,
        {
            let slot = card_slot(g.items[j].indicator_id.as_str(), cards[items_start + j].as_str());
            proof {
                let t = g.items@.take(j + 1);
                assert(t.drop_last() =~= g.items@.take(j as int));
                assert(sv.subrange(items_start as int, items_start + j + 1).take(j as int) =~= sv.subrange(
                    items_start as int,
                    items_start + j,
                ));
                assert(sv[items_start + j] == cards@[items_start + j]@);
            }
            slots.append(slot.as_str());
            j = j + 1;
        }
        assert(g.items@.take(g.items.len() as int) =~= g.items@);
        let sub_start = items_start + g.items.len();
        let sub_depth = if depth < usize::MAX { depth + 1 } else { depth };
        proof {
            assert(decreases_to!(groups@ => groups@[i as int]));
            assert(decreases_to!(groups@[i as int] => groups@[i as int].subgroups));
            assert(decreases_to!(groups@[i as int].subgroups => groups@[i as int].subgroups@));
        }
        let (sub_html, next) = render_groups_html(&g.subgroups, sub_depth, cards, sub_start);
        let section = group_section(g.title.as_str(), depth, slots.as_str(), g.items.len() > 0, sub_html.as_str());
        proof {
            let x = sv.subrange(items_start as int, next as int);
            let n = g.items@.len() as int;
            assert(x.take(n) =~= sv.subrange(items_start as int, items_start + n));
            assert(x.skip(n) =~= sv.subrange(sub_start as int, next as int));
            assert(section@ == section_html(*g, depth == 0, x));
            let y = sv.subrange(start as int, next as int);
            let k = groups_ids(groups@.take(i as int)).len() as int;
            assert(groups@.take(i + 1).last() == *g);
            assert(y.take(k) =~= sv.subrange(start as int, pos as int));
            assert(y.skip(k) =~= x);
        }
        out.append(section.as_str());
        pos = next;
        i = i + 1;
    }
    assert(groups@.take(groups.len() as int) =~= groups@);
    (out, pos)
}

proof fn lemma_groups_ids_prefix(gs: Seq<DashboardGroup>, i: int)
    requires
        0 <= i <= gs.len(),
    ensures
        groups_ids(gs.take(i)).len() <= groups_ids(gs).len(),
    decreases gs.len() - i,
{
    if i < gs.len() {
        lemma_groups_ids_prefix(gs, i + 1);
        assert(gs.take(i + 1).drop_last() =~= gs.take(i));
    } else {
        assert(gs.take(i) =~= gs);
    }
}

/// The start of the viewer document, up to the design's style sheet.
pub open spec fn doc_head() -> Seq<char> {
    "<!DOCTYPE html><html><head><meta charset=\"UTF-8\"><style>\n"@
}

/// The page's own style rules, up to the scrollbar thumb colour.
pub open spec fn doc_rules_start() -> Seq<char> {
    "\nhtml,body{margin:0;padding:0;}\n:root{\n  --sb-thumb: "@
}

/// The style rules between the scrollbar thumb colour and its hover colour.
pub open spec fn doc_rules_middle() -> Seq<char> {
    ";\n  --sb-thumb-hover: "@
}

/// The rest of the style rules.
pub open spec fn doc_rules_end() -> Seq<char> {
    ";\n  --bi-primary:#3b82f6;\n  --bi-success:#22c55e;\n  --bi-danger:#ef4444;\n  --bi-warning:#f59e0b;\n  --bi-text:#1e293b;\n  --bi-text-secondary:#64748b;\n  --bi-bg:#ffffff;\n  --bi-bg-secondary:#f8fafc;\n  --bi-border:#e2e8f0;\n}\nbody[data-theme=\"dark\"]{\n  --bi-text:#e5e7eb;\n  --bi-text-secondary:#9aa4b2;\n  --bi-bg:#0b1220;\n  --bi-bg-secondary:#0f1a2e;\n  --bi-border:rgba(255,255,255,.12);\n}\nbody{\n  background:transparent !important;\n  min-height:100% !important;\n  display:block !important;\n  justify-content:initial !important;\n  align-items:initial !important;\n  padding:0 !important;\n}\nhtml{\n  overflow:auto;\n  scrollbar-width:thin;\n  scrollbar-color:var(--sb-thumb) transparent;\n}\nhtml::-webkit-scrollbar{width:6px;height:6px;}\nhtml::-webkit-scrollbar-track{background:transparent;}\nhtml::-webkit-scrollbar-thumb{\n  background:var(--sb-thumb);\n  border-radius:3px;\n}\nhtml::-webkit-scrollbar-thumb:hover{\n  background:var(--sb-thumb-hover);\n}\n.dashboard{\n  margin:12px 110px 110px;\n  display:flex;\n  flex-direction:column;\n  gap:14px;\n}\n.group{\n  display:flex;\n  flex-direction:column;\n  gap:10px;\n}\n.group__title{\n  font-weight:700;\n  padding:0;\n  margin:0;\n  background:none !important;\n  border:none !important;\n  color:var(--text,var(--bi-text));\n}\n.group__title--root{font-size:16px;}\n.group__title--sub{font-size:14px;opacity:.9;margin-top:2px;}\n.cards{\n  display:flex;\n  flex-wrap:wrap;\n  gap:12px;\n  align-items:stretch;\n}\n.card-slot{\n  flex:0 0 280px;\n  width:280px;\n  min-width:280px;\n}\n.card-slot .indicator-card{\n  width:100%;\n  min-height:124px;\n}\n.cards-empty,.empty{\n  color:var(--muted,var(--bi-text-secondary));\n  font-size:13px;\n  padding:2px 0;\n}\n"@
}

/// The script that animates a clicked card and tells the page about it, up to
/// the body's theme attribute.
pub open spec fn doc_script() -> Seq<char> {
    "</style><script>(function(){var ac=null;document.addEventListener('click',function(e){var btn=e.target.closest('.indicator-card');if(!btn)return;var slot=btn.closest('[data-indicator-id]');if(!slot)return;if(ac&&ac!==btn){ac.style.cssText='';}ac=btn;var r=btn.getBoundingClientRect();var cx=r.left+r.width/2,cy=r.top+r.height/2;var dx=(window.innerWidth/2-cx)*0.3,dy=(window.innerHeight/2-cy)*0.3;btn.style.transition='transform 0.22s cubic-bezier(0.4,0,0.2,1),opacity 0.22s ease';btn.style.transform='translate('+dx+'px,'+dy+'px) scale(1.08)';btn.style.opacity='0';btn.style.pointerEvents='none';setTimeout(function(){window.parent.postMessage({type:'indicator_click',id:slot.dataset.indicatorId,cx:cx,cy:cy},'*');},230);});window.addEventListener('message',function(e){if(!e.data||e.data.type!=='indicator_restore')return;if(!ac)return;var c=ac;ac=null;c.style.transition='transform 0.28s cubic-bezier(0.2,0.9,0.2,1),opacity 0.28s ease';c.style.transform='';c.style.opacity='';c.style.pointerEvents='';setTimeout(function(){c.style.transition='';},300);});})();</script></head><body data-theme=\""@
}

/// The viewer document: the design's style sheet, the page's rules with the
/// scrollbar colours, the card script, the body in the theme (`light`, or
/// `dark` for any other) and the groups area inside the dashboard `div`.
pub open spec fn dashboard_doc_text(
    style_css: Seq<char>,
    thumb: Seq<char>,
    hover: Seq<char>,
    theme: Seq<char>,
    groups_html: Seq<char>,
) -> Seq<char> {
    doc_head() + style_css + doc_rules_start() + thumb + doc_rules_middle() + hover + doc_rules_end()
        + doc_script() + (if theme == "light"@ { "light"@ } else { "dark"@ })
        + "\"><div class=\"dashboard\">"@ + groups_html + "</div></body></html>"@
}

/// The groups area of the document: the sections of the groups, or a note
/// that the dashboard is empty.
pub open spec fn doc_groups_html(groups: Seq<DashboardGroup>, cards: Seq<Seq<char>>) -> Seq<char> {
    if groups.len() > 0 {
        sections_html(groups, true, cards)
    } else {
        "<div class=\"empty\">Дашборд пуст. Добавьте группы и индикаторы в редакторе.</div>"@
    }
}

/// The viewer document of a dashboard: `cards` holds the HTML of every card in
/// display order (see `groups_ids`), `style_css` the style sheet of the card
/// design, `thumb` and `hover` the scrollbar colours (see `dashboard_doc_text`).
pub fn build_dashboard_srcdoc(
    groups: &Vec<DashboardGroup>,
    cards: &Vec<String>,
    theme: &str,
    style_css: &str,
    thumb: &str,
    hover: &str,
) -> (r: String)
    requires
        groups_ids(groups@).len() == cards@.len(),
    ensures
        r@ == dashboard_doc_text(
            style_css@,
            thumb@,
            hover@,
            theme@,
            doc_groups_html(groups@, strings_view(cards@)),
        ),
{
    let (sections, _next) = render_groups_html(groups, 0, cards, 0);
    assert(strings_view(cards@).subrange(0, cards@.len() as int) =~= strings_view(cards@));
    let area = groups_area(groups.len() > 0, sections.as_str());
    let mut html = String::from_str("<!DOCTYPE html><html><head><meta charset=\"UTF-8\"><style>\n");
    html.append(style_css);
    html.append("\nhtml,body{margin:0;padding:0;}\n:root{\n  --sb-thumb: ");
    html.append(thumb);
    html.append(";\n  --sb-thumb-hover: ");
    html.append(hover);
    html.append(";\n  --bi-primary:#3b82f6;\n  --bi-success:#22c55e;\n  --bi-danger:#ef4444;\n  --bi-warning:#f59e0b;\n  --bi-text:#1e293b;\n  --bi-text-secondary:#64748b;\n  --bi-bg:#ffffff;\n  --bi-bg-secondary:#f8fafc;\n  --bi-border:#e2e8f0;\n}\nbody[data-theme=\"dark\"]{\n  --bi-text:#e5e7eb;\n  --bi-text-secondary:#9aa4b2;\n  --bi-bg:#0b1220;\n  --bi-bg-secondary:#0f1a2e;\n  --bi-border:rgba(255,255,255,.12);\n}\nbody{\n  background:transparent !important;\n  min-height:100% !important;\n  display:block !important;\n  justify-content:initial !important;\n  align-items:initial !important;\n  padding:0 !important;\n}\nhtml{\n  overflow:auto;\n  scrollbar-width:thin;\n  scrollbar-color:var(--sb-thumb) transparent;\n}\nhtml::-webkit-scrollbar{width:6px;height:6px;}\nhtml::-webkit-scrollbar-track{background:transparent;}\nhtml::-webkit-scrollbar-thumb{\n  background:var(--sb-thumb);\n  border-radius:3px;\n}\nhtml::-webkit-scrollbar-thumb:hover{\n  background:var(--sb-thumb-hover);\n}\n.dashboard{\n  margin:12px 110px 110px;\n  display:flex;\n  flex-direction:column;\n  gap:14px;\n}\n.group{\n  display:flex;\n  flex-direction:column;\n  gap:10px;\n}\n.group__title{\n  font-weight:700;\n  padding:0;\n  margin:0;\n  background:none !important;\n  border:none !important;\n  color:var(--text,var(--bi-text));\n}\n.group__title--root{font-size:16px;}\n.group__title--sub{font-size:14px;opacity:.9;margin-top:2px;}\n.cards{\n  display:flex;\n  flex-wrap:wrap;\n  gap:12px;\n  align-items:stretch;\n}\n.card-slot{\n  flex:0 0 280px;\n  width:280px;\n  min-width:280px;\n}\n.card-slot .indicator-card{\n  width:100%;\n  min-height:124px;\n}\n.cards-empty,.empty{\n  color:var(--muted,var(--bi-text-secondary));\n  font-size:13px;\n  padding:2px 0;\n}\n");
    html.append("</style><script>(function(){var ac=null;document.addEventListener('click',function(e){var btn=e.target.closest('.indicator-card');if(!btn)return;var slot=btn.closest('[data-indicator-id]');if(!slot)return;if(ac&&ac!==btn){ac.style.cssText='';}ac=btn;var r=btn.getBoundingClientRect();var cx=r.left+r.width/2,cy=r.top+r.height/2;var dx=(window.innerWidth/2-cx)*0.3,dy=(window.innerHeight/2-cy)*0.3;btn.style.transition='transform 0.22s cubic-bezier(0.4,0,0.2,1),opacity 0.22s ease';btn.style.transform='translate('+dx+'px,'+dy+'px) scale(1.08)';btn.style.opacity='0';btn.style.pointerEvents='none';setTimeout(function(){window.parent.postMessage({type:'indicator_click',id:slot.dataset.indicatorId,cx:cx,cy:cy},'*');},230);});window.addEventListener('message',function(e){if(!e.data||e.data.type!=='indicator_restore')return;if(!ac)return;var c=ac;ac=null;c.style.transition='transform 0.28s cubic-bezier(0.2,0.9,0.2,1),opacity 0.28s ease';c.style.transform='';c.style.opacity='';c.style.pointerEvents='';setTimeout(function(){c.style.transition='';},300);});})();</script></head><body data-theme=\"");
    html.append(body_theme(theme));
    html.append("\"><div class=\"dashboard\">");
    html.append(area.as_str());
    html.append("</div></body></html>");
    html
}

} // verus!
