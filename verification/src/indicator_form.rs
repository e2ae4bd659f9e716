//! The indicator editor: its form state, validation, saving and the history of
//! card designs generated by the language model.

use vstd::prelude::*;
use crate::text::{dec, is_blank, is_blank_spec, join_spec, join_strings, push_dec, str_eq, strings_view, trim_spec};

verus! {

/// An indicator of the catalog, for the data source picker.
pub struct IndicatorSchemaMeta {
    pub id: String,
    pub label: String,
    pub description: Option<String>,
}

/// A card design the language model returned.
pub struct GenerateViewResp {
    pub custom_html: String,
    pub custom_css: String,
    pub explanation: String,
}

/// One generation in the editor's history.
pub struct LlmGenerationEntry {
    pub prompt: String,
    pub html: String,
    pub css: String,
    pub explanation: String,
}

/// What a generation request sends: the prompt, the current design (when not
/// blank) and the indicator's name.
pub struct GenerationRequest {
    pub prompt: String,
    pub current_html: Option<String>,
    pub current_css: Option<String>,
    pub indicator_description: String,
}

/// State of the indicator editor.
pub struct BiIndicatorDetailsVm {
    pub id: Option<String>,
    pub code: String,
    pub description: String,
    pub comment: String,
    pub status: String,
    pub owner_user_id: String,
    pub is_public: bool,
    pub version: i64,
    pub data_spec_schema_id: String,
    pub data_spec_sql_artifact_id: String,
    pub data_spec_query_config_json: String,
    pub params_json: String,
    pub view_spec_style_name: String,
    pub view_spec_custom_html: String,
    pub view_spec_custom_css: String,
    pub view_spec_format_json: String,
    pub view_spec_thresholds_json: String,
    pub drill_spec_json: String,
    pub created_at: String,
    pub updated_at: String,
    pub created_by: String,
    pub updated_by: String,
    pub active_tab: String,
    pub loading: bool,
    pub saving: bool,
    pub error: Option<String>,
    pub success: Option<String>,
    pub preview_title: String,
    pub preview_value: String,
    pub preview_delta: String,
    pub preview_delta_dir: String,
    pub preview_status: String,
    pub preview_chip: String,
    pub preview_progress: u8,
    pub preview_size: String,
    pub llm_prompt: String,
    pub llm_generating: bool,
    pub llm_error: Option<String>,
    pub llm_history: Vec<LlmGenerationEntry>,
    pub llm_panel_open: bool,
}

/// The most generations the history keeps.
pub open spec fn history_cap() -> int {
    10
}

/// `h` with `e` appended, the oldest dropped once there are more than ten.
pub open spec fn pushed_history(h: Seq<LlmGenerationEntry>, e: LlmGenerationEntry) -> Seq<LlmGenerationEntry> {
    let p = h.push(e);
    if p.len() > history_cap() { p.drop_first() } else { p }
}

/// Appends a generation to the history, dropping the oldest past ten entries.
pub fn push_generation(history: &mut Vec<LlmGenerationEntry>, entry: LlmGenerationEntry)
    ensures
        final(history)@ == pushed_history(old(history)@, entry),
{
    history.push(entry);
    if history.len() > 10 {
        history.remove(0);
    }
}

/// A history of at most ten generations keeps at most ten after another one,
/// the new one last and the others in their order.
pub proof fn lemma_history_bounded(h: Seq<LlmGenerationEntry>, e: LlmGenerationEntry)
    requires
        h.len() <= history_cap(),
    ensures
        pushed_history(h, e).len() <= history_cap(),
        pushed_history(h, e).last() == e,
        pushed_history(h, e).drop_last() == (if h.len() == history_cap() { h.drop_first() } else { h }),
{
    assert(pushed_history(h, e).drop_last() =~= (if h.len() == history_cap() { h.drop_first() } else { h }));
}

/// A text field that is sent only when not blank.
pub fn nonblank_text(value: &String) -> (r: Option<String>)
    ensures
        r == (if is_blank_spec(value@) { None::<String> } else { Some(*value) }),
{
    if is_blank(value.as_str()) { None } else { Some(value.clone()) }
}

/// Whether the drill-down JSON text means "no drill-down": blank or `null`.
pub fn drill_spec_is_null(raw: &str) -> (r: bool)
    ensures
        r == (is_blank_spec(raw@) || trim_spec(raw@) == "null"@),
{
    let t = crate::text::trim(raw);
    is_blank(raw) || str_eq(t.as_str(), "null")
}

/// The id a save ends with: the one the server returned, else the one the
/// indicator already had; an error when there is neither.
pub fn saved_id(response_id: Option<String>, fallback_id: Option<String>) -> (r: Result<String, String>)
    ensures
        match response_id {
            Some(id) => r == Ok::<String, String>(id),
            None => match fallback_id {
                Some(id) => r == Ok::<String, String>(id),
                None => r matches Err(e) && e@ == "No id in response"@,
            },
        },
{
    match response_id {
        Some(id) => Ok(id),
        None => match fallback_id {
            Some(id) => Ok(id),
            None => Err(String::from_str("No id in response")),
        },
    }
}

/// A catalog entry from the id as a plain text or as the inner text of a
/// newtype object (`{"0": …}`); entries with neither are skipped.
pub fn catalog_entry(
    id_text: Option<String>,
    id_inner: Option<String>,
    label: Option<String>,
    description: Option<String>,
) -> (r: Option<IndicatorSchemaMeta>)
    ensures
        match (id_text, id_inner) {
            (None, None) => r is None,
            _ => r matches Some(m) && m.id == (match id_text {
                Some(s) => s,
                None => id_inner->0,
            }) && m.label@ == (match label {
                Some(l) => l@,
                None => Seq::<char>::empty(),
            }) && m.description == description,
        },
{
    let id = match id_text {
        Some(s) => s,
        None => match id_inner {
            Some(s) => s,
            None => return None,
        },
    };
    let label = match label {
        Some(l) => l,
        None => String::new(),
    };
    Some(IndicatorSchemaMeta { id, label, description })
}

/// The cabinets of a compute request: none when empty, else their ids joined by `,`.
pub fn connection_refs_param(ids: &Vec<String>) -> (r: Option<String>)
    ensures
        match r {
            Some(s) => ids@.len() > 0 && s@ == join_spec(strings_view(ids@), ","@),
            None => ids@.len() == 0,
        },
{
    if ids.len() == 0 {
        None
    } else {
        Some(join_strings(ids, ","))
    }
}

/// Label of an indicator status: active, archived, otherwise draft.
pub fn status_label(status: &str) -> (r: &'static str)
    ensures
        r@ == (if status@ == "active"@ {
            "Активен"@
        } else if status@ == "archived"@ {
            "Архив"@
        } else {
            "Черновик"@
        }),
{
    if str_eq(status, "active") {
        "Активен"
    } else if str_eq(status, "archived") {
        "Архив"
    } else {
        "Черновик"
    }
}

impl BiIndicatorDetailsVm {
    /// A new, empty indicator: draft, version 1, classic design, the sample
    /// preview values and the general tab open.
    pub fn new() -> (r: BiIndicatorDetailsVm)
        ensures
            r.id is None,
            r.code@.len() == 0,
            r.description@.len() == 0,
            r.comment@.len() == 0,
            r.status@ == "draft"@,
            r.owner_user_id@.len() == 0,
            !r.is_public,
            r.version == 1,
            r.data_spec_schema_id@.len() == 0,
            r.data_spec_sql_artifact_id@.len() == 0,
            r.data_spec_query_config_json@ == "{}"@,
            r.params_json@ == "[]"@,
            r.view_spec_style_name@ == "classic"@,
            r.view_spec_custom_html@.len() == 0,
            r.view_spec_custom_css@.len() == 0,
            r.view_spec_format_json@ == "{}"@,
            r.view_spec_thresholds_json@ == "[]"@,
            r.drill_spec_json@.len() == 0,
            r.created_at@.len() == 0 && r.updated_at@.len() == 0,
            r.created_by@.len() == 0 && r.updated_by@.len() == 0,
            r.active_tab@ == "general"@,
            !r.loading && !r.saving,
            r.error is None && r.success is None,
            r.preview_title@ == "Выручка"@,
            r.preview_value@ == "₽2.40M"@,
            r.preview_delta@ == "+12.5%"@,
            r.preview_delta_dir@ == "up"@,
            r.preview_status@ == "ok"@,
            r.preview_chip@ == "Выручка"@,
            r.preview_progress == 82,
            r.preview_size@ == "1x1"@,
            r.llm_prompt@.len() == 0,
            !r.llm_generating,
            r.llm_error is None,
            r.llm_history@.len() == 0,
            !r.llm_panel_open,
    {
        BiIndicatorDetailsVm {
            id: None,
            code: String::new(),
            description: String::new(),
            comment: String::new(),
            status: String::from_str("draft"),
            owner_user_id: String::new(),
            is_public: false,
            version: 1,
            data_spec_schema_id: String::new(),
            data_spec_sql_artifact_id: String::new(),
            data_spec_query_config_json: String::from_str("{}"),
            params_json: String::from_str("[]"),
            view_spec_style_name: String::from_str("classic"),
            view_spec_custom_html: String::new(),
            view_spec_custom_css: String::new(),
            view_spec_format_json: String::from_str("{}"),
            view_spec_thresholds_json: String::from_str("[]"),
            drill_spec_json: String::new(),
            created_at: String::new(),
            updated_at: String::new(),
            created_by: String::new(),
            updated_by: String::new(),
            active_tab: String::from_str("general"),
            loading: false,
            saving: false,
            error: None,
            success: None,
            preview_title: String::from_str("Выручка"),
            preview_value: String::from_str("₽2.40M"),
            preview_delta: String::from_str("+12.5%"),
            preview_delta_dir: String::from_str("up"),
            preview_status: String::from_str("ok"),
            preview_chip: String::from_str("Выручка"),
            preview_progress: 82,
            preview_size: String::from_str("1x1"),
            llm_prompt: String::new(),
            llm_generating: false,
            llm_error: None,
            llm_history: Vec::new(),
            llm_panel_open: false,
        }
    }

    /// Editing an existing indicator (it has an id).
    pub fn is_edit_mode(&self) -> (r: bool)
        ensures
            r == self.id is Some,
    {
        self.id.is_some()
    }

    /// The form can be saved: the name (description) is not blank.
    pub fn is_valid(&self) -> (r: bool)
        ensures
            r == !is_blank_spec(self.description@),
    {
        !is_blank(self.description.as_str())
    }

    /// Saving is disabled while a save runs or the form is invalid.
    pub fn is_save_disabled(&self) -> (r: bool)
        ensures
            r == (self.saving || is_blank_spec(self.description@)),
    {
        self.saving || !self.is_valid()
    }

    /// Checks the form: the name is required.
    pub fn validate(&self) -> (r: Result<(), String>)
        ensures
            is_blank_spec(self.description@) <==> r is Err,
            r matches Err(e) ==> e@ == "Наименование обязательно для заполнения"@,
    {
        if is_blank(self.description.as_str()) {
            return Err(String::from_str("Наименование обязательно для заполнения"));
        }
        Ok(())
    }

    /// Opens a tab.
    pub fn set_tab(&mut self, tab: &str)
        ensures
            final(self).active_tab@ == tab@,
            *final(self) == (BiIndicatorDetailsVm { active_tab: final(self).active_tab, ..*old(self) }),
    {
        self.active_tab = String::from_str(tab);
    }

    /// Starts a save: an invalid form sets the error and nothing is sent
    /// (`None`); otherwise the editor is marked saving, the error cleared, and
    /// the fields to send are returned (see `to_dto`).
    pub fn save(&mut self) -> (r: Option<BiIndicatorSaveDto>)
        ensures
            r is Some == !is_blank_spec(old(self).description@),
            r is None ==> (final(self).error matches Some(e) && e@ == "Наименование обязательно для заполнения"@
                && *final(self) == (BiIndicatorDetailsVm { error: final(self).error, ..*old(self) })),
            r matches Some(f) ==> *final(self) == (BiIndicatorDetailsVm { saving: true, error: None, ..*old(self) })
                && is_save_dto_of(*old(self), f),
    {
        match self.validate() {
            Err(msg) => {
                self.error = Some(msg);
                None
            },
            Ok(()) => {
                self.saving = true;
                self.error = None;
                Some(self.to_dto())
            },
        }
    }

    /// Ends a save with the server's answer: a new indicator takes the returned
    /// id and a success message; a failure is shown as the error.
    pub fn finish_save(&mut self, result: Result<String, String>)
        ensures
            match result {
                Ok(new_id) => final(self).success matches Some(s) && s@ == "Сохранено успешно"@
                    && *final(self) == (BiIndicatorDetailsVm {
                    saving: false,
                    id: if old(self).id is None { Some(new_id) } else { old(self).id },
                    success: final(self).success,
                    ..*old(self)
                }),
                Err(e) => *final(self) == (BiIndicatorDetailsVm { saving: false, error: Some(e), ..*old(self) }),
            },
    {
        match result {
            Ok(new_id) => {
                if self.id.is_none() {
                    self.id = Some(new_id);
                }
                self.saving = false;
                self.success = Some(String::from_str("Сохранено успешно"));
            },
            Err(e) => {
                self.saving = false;
                self.error = Some(e);
            },
        }
    }

    /// Starts a generation: a blank prompt sets the generation error and sends
    /// nothing; otherwise the editor is marked generating and the request is
    /// returned.
    pub fn generate_view(&mut self) -> (r: Option<GenerationRequest>)
        ensures
            is_blank_spec(old(self).llm_prompt@) ==> r is None && (final(self).llm_error matches Some(e)
                && e@ == "Введите описание"@ && *final(self) == (BiIndicatorDetailsVm {
                llm_error: final(self).llm_error,
                ..*old(self)
            })),
            !is_blank_spec(old(self).llm_prompt@) ==> (r matches Some(q) && q.prompt == old(self).llm_prompt
                && q.current_html == (if is_blank_spec(old(self).view_spec_custom_html@) {
                None::<String>
            } else {
                Some(old(self).view_spec_custom_html)
            }) && q.current_css == (if is_blank_spec(old(self).view_spec_custom_css@) {
                None::<String>
            } else {
                Some(old(self).view_spec_custom_css)
            }) && q.indicator_description == old(self).description && *final(self) == (
            BiIndicatorDetailsVm { llm_generating: true, llm_error: None, ..*old(self) })),
    {
        if is_blank(self.llm_prompt.as_str()) {
            self.llm_error = Some(String::from_str("Введите описание"));
            return None;
        }
        self.llm_generating = true;
        self.llm_error = None;
        Some(GenerationRequest {
            prompt: self.llm_prompt.clone(),
            current_html: nonblank_text(&self.view_spec_custom_html),
            current_css: nonblank_text(&self.view_spec_custom_css),
            indicator_description: self.description.clone(),
        })
    }

    /// Ends a generation with the model's answer: a design joins the history
    /// (see `pushed_history`) and the prompt is cleared; a failure is shown as
    /// the generation error.
    pub fn finish_generation(&mut self, prompt: String, result: Result<GenerateViewResp, String>)
        ensures
            match result {
                Ok(resp) => final(self).llm_prompt@.len() == 0 && *final(self) == (BiIndicatorDetailsVm {
                    llm_history: final(self).llm_history,
                    llm_generating: false,
                    llm_prompt: final(self).llm_prompt,
                    ..*old(self)
                }) && final(self).llm_history@ == pushed_history(
                    old(self).llm_history@,
                    LlmGenerationEntry {
                        prompt,
                        html: resp.custom_html,
                        css: resp.custom_css,
                        explanation: resp.explanation,
                    },
                ),
                Err(e) => *final(self) == (BiIndicatorDetailsVm {
                    llm_error: Some(e),
                    llm_generating: false,
                    ..*old(self)
                }),
            },
    {
        match result {
            Ok(resp) => {
                push_generation(
                    &mut self.llm_history,
                    LlmGenerationEntry {
                        prompt,
                        html: resp.custom_html,
                        css: resp.custom_css,
                        explanation: resp.explanation,
                    },
                );
                self.llm_generating = false;
                self.llm_prompt = String::new();
            },
            Err(e) => {
                self.llm_error = Some(e);
                self.llm_generating = false;
            },
        }
    }

    /// The hint line of the preview card: `до цели: <progress>%`.
    pub fn preview_hint(&self) -> (r: String)
        ensures
            r@ == "до цели: "@ + dec(self.preview_progress as nat) + "%"@,
    {
        let mut r = String::from_str("до цели: ");
        push_dec(&mut r, self.preview_progress as u64);
        r.append("%");
        r
    }
}

/// The progress typed in the preview: at most 100; text that is not a `u8`
/// number reads as 50.
pub fn progress_from_input(text: &str) -> (r: u8)
    ensures
        r == (match crate::card::parse_u8_spec(text@) {
            Some(v) => if v < 100 { v } else { 100u8 },
            None => 50u8,
        }),
{
    match crate::card::parse_u8(text) {
        Some(v) => if v < 100 { v } else { 100 },
        None => 50,
    }
}

/// Whether the preview shows the hint for an empty custom design: the custom
/// design is chosen and both its HTML and CSS are blank.
pub fn needs_custom_design_hint(style_name: &str, html: &str, css: &str) -> (r: bool)
    ensures
        r == (style_name@ == "custom"@ && is_blank_spec(html@) && is_blank_spec(css@)),
{
    str_eq(style_name, "custom") && is_blank(html) && is_blank(css)
}

/// The indicator as the editor sends it to be saved. The JSON texts are parsed
/// by the sender, each falling back to its empty value when it does not parse.
pub struct BiIndicatorSaveDto {
    pub id: Option<String>,
    pub code: String,
    pub description: String,
    /// `None` when the comment is blank.
    pub comment: Option<String>,
    pub status: String,
    pub owner_user_id: String,
    pub is_public: bool,
    pub version: i64,
    pub schema_id: String,
    pub query_config_json: String,
    /// `None` when the SQL artifact id is blank.
    pub sql_artifact_id: Option<String>,
    pub params_json: String,
    pub style_name: String,
    /// `None` when the custom HTML is blank.
    pub custom_html: Option<String>,
    /// `None` when the custom CSS is blank.
    pub custom_css: Option<String>,
    pub format_json: String,
    pub thresholds_json: String,
    /// `None` when there is no drill-down (blank or `null`).
    pub drill_spec_json: Option<String>,
}

/// The data part of a stored indicator; a missing value is `None`, the query
/// configuration comes as pretty-printed JSON.
pub struct DataSpecRecord {
    pub schema_id: Option<String>,
    pub sql_artifact_id: Option<String>,
    pub query_config_text: Option<String>,
}

/// The view part of a stored indicator; a missing value is `None`, the format
/// and the thresholds come as pretty-printed JSON.
pub struct ViewSpecRecord {
    pub style_name: Option<String>,
    pub custom_html: Option<String>,
    pub custom_css: Option<String>,
    pub format_text: Option<String>,
    pub thresholds_text: Option<String>,
}

/// A stored indicator as the editor reads it: each value that is missing (or
/// of another JSON type) is `None`; a missing part leaves the editor's fields
/// of that part as they are.
pub struct IndicatorRecord {
    pub id: Option<String>,
    pub code: Option<String>,
    pub description: Option<String>,
    pub comment: Option<String>,
    pub status: Option<String>,
    pub owner_user_id: Option<String>,
    pub is_public: Option<bool>,
    pub version: Option<i64>,
    pub data_spec: Option<DataSpecRecord>,
    /// The parameters as pretty-printed JSON.
    pub params_text: Option<String>,
    pub view_spec: Option<ViewSpecRecord>,
    /// The drill-down as pretty-printed JSON; `None` when missing or `null`.
    pub drill_spec_text: Option<String>,
    pub created_at: Option<String>,
    pub updated_at: Option<String>,
    pub created_by: Option<String>,
    pub updated_by: Option<String>,
}

/// The text of an optional value, or `default` when it is missing.
pub open spec fn text_or(value: Option<String>, default: Seq<char>) -> Seq<char> {
    match value {
        Some(s) => s@,
        None => default,
    }
}

/// The value of an optional text when it is not blank.
pub open spec fn nonblank_of(value: String) -> Option<String> {
    if is_blank_spec(value@) { None } else { Some(value) }
}

fn take_or(value: Option<String>, default: &str) -> (r: String)
    ensures
        r@ == text_or(value, default@),
{
    match value {
        Some(s) => s,
        None => String::from_str(default),
    }
}

fn clone_opt(value: &Option<String>) -> (r: Option<String>)
    ensures
        r == *value,
{
    match value {
        Some(s) => Some(s.clone()),
        None => None,
    }
}

/// `r` is the form `vm` as it is sent to be saved (see `to_dto`).
pub open spec fn is_save_dto_of(vm: BiIndicatorDetailsVm, r: BiIndicatorSaveDto) -> bool {
    &&& r.id == vm.id
    &&& r.code == vm.code
    &&& r.description == vm.description
    &&& r.comment == nonblank_of(vm.comment)
    &&& r.status == vm.status
    &&& r.owner_user_id == vm.owner_user_id
    &&& r.is_public == vm.is_public
    &&& r.version == vm.version
    &&& r.schema_id == vm.data_spec_schema_id
    &&& r.query_config_json == vm.data_spec_query_config_json
    &&& r.sql_artifact_id == nonblank_of(vm.data_spec_sql_artifact_id)
    &&& r.params_json == vm.params_json
    &&& r.style_name == vm.view_spec_style_name
    &&& r.custom_html == nonblank_of(vm.view_spec_custom_html)
    &&& r.custom_css == nonblank_of(vm.view_spec_custom_css)
    &&& r.format_json == vm.view_spec_format_json
    &&& r.thresholds_json == vm.view_spec_thresholds_json
    &&& r.drill_spec_json == (if is_blank_spec(vm.drill_spec_json@) || trim_spec(
        vm.drill_spec_json@,
    ) == "null"@ {
        None::<String>
    } else {
        Some(vm.drill_spec_json)
    })
}

/// `after` is the form `before` filled from `rec` (see `from_raw`).
pub open spec fn is_loaded_from(
    before: BiIndicatorDetailsVm,
    after: BiIndicatorDetailsVm,
    rec: IndicatorRecord,
) -> bool {
    &&& after.id == rec.id
    &&& after.code@ == text_or(rec.code, ""@)
    &&& after.description@ == text_or(rec.description, ""@)
    &&& after.comment@ == text_or(rec.comment, ""@)
    &&& after.status@ == text_or(rec.status, "draft"@)
    &&& after.owner_user_id@ == text_or(rec.owner_user_id, ""@)
    &&& after.is_public == (match rec.is_public {
        Some(b) => b,
        None => false,
    })
    &&& after.version == (match rec.version {
        Some(v) => v,
        None => 1i64,
    })
    &&& match rec.data_spec {
        Some(ds) => after.data_spec_schema_id@ == text_or(ds.schema_id, ""@)
            && after.data_spec_sql_artifact_id@ == text_or(ds.sql_artifact_id, ""@)
            && after.data_spec_query_config_json@ == text_or(ds.query_config_text, "{}"@),
        None => after.data_spec_schema_id == before.data_spec_schema_id
            && after.data_spec_sql_artifact_id == before.data_spec_sql_artifact_id
            && after.data_spec_query_config_json == before.data_spec_query_config_json,
    }
    &&& after.params_json == (match rec.params_text {
        Some(t) => t,
        None => before.params_json,
    })
    &&& match rec.view_spec {
        Some(vs) => after.view_spec_style_name@ == text_or(vs.style_name, "classic"@)
            && after.view_spec_custom_html@ == text_or(vs.custom_html, ""@)
            && after.view_spec_custom_css@ == text_or(vs.custom_css, ""@)
            && after.view_spec_format_json@ == text_or(vs.format_text, "{}"@)
            && after.view_spec_thresholds_json@ == text_or(vs.thresholds_text, "[]"@),
        None => after.view_spec_style_name == before.view_spec_style_name
            && after.view_spec_custom_html == before.view_spec_custom_html
            && after.view_spec_custom_css == before.view_spec_custom_css
            && after.view_spec_format_json == before.view_spec_format_json
            && after.view_spec_thresholds_json == before.view_spec_thresholds_json,
    }
    &&& after.drill_spec_json@ == text_or(rec.drill_spec_text, ""@)
    &&& after.created_at@ == text_or(rec.created_at, ""@)
    &&& after.updated_at@ == text_or(rec.updated_at, ""@)
    &&& after.created_by@ == text_or(rec.created_by, ""@)
    &&& after.updated_by@ == text_or(rec.updated_by, ""@)
    &&& after == (BiIndicatorDetailsVm {
        id: after.id,
        code: after.code,
        description: after.description,
        comment: after.comment,
        status: after.status,
        owner_user_id: after.owner_user_id,
        is_public: after.is_public,
        version: after.version,
        data_spec_schema_id: after.data_spec_schema_id,
        data_spec_sql_artifact_id: after.data_spec_sql_artifact_id,
        data_spec_query_config_json: after.data_spec_query_config_json,
        params_json: after.params_json,
        view_spec_style_name: after.view_spec_style_name,
        view_spec_custom_html: after.view_spec_custom_html,
        view_spec_custom_css: after.view_spec_custom_css,
        view_spec_format_json: after.view_spec_format_json,
        view_spec_thresholds_json: after.view_spec_thresholds_json,
        drill_spec_json: after.drill_spec_json,
        created_at: after.created_at,
        updated_at: after.updated_at,
        created_by: after.created_by,
        updated_by: after.updated_by,
        ..before
    })
}

/// The drill-down text a save sends for the text a record held: none when it
/// is missing, blank or `null`, else that text.
pub open spec fn sent_drill(t: Option<String>) -> Option<Seq<char>> {
    match t {
        Some(x) => if is_blank_spec(x@) || trim_spec(x@) == "null"@ { None } else { Some(x@) },
        None => None,
    }
}

/// A non-blank text of a record, as a save sends it.
pub open spec fn sent_text(t: Option<String>) -> Option<Seq<char>> {
    match t {
        Some(x) => if is_blank_spec(x@) { None } else { Some(x@) },
        None => None,
    }
}

/// The view of an optional text.
pub open spec fn opt_text(t: Option<String>) -> Option<Seq<char>> {
    match t {
        Some(x) => Some(x@),
        None => None,
    }
}

/// Saving a form right after it was filled from a stored indicator sends back
/// what was stored: the id; the code, name, status, owner, visibility and
/// version as read (missing ones with their defaults); the data part, the
/// parameters and the view part as read (a missing part as the form had it);
/// the comment, SQL artifact and custom HTML and CSS when not blank; the
/// drill-down unless it is missing, blank or `null`.
pub proof fn lemma_load_then_save(
    before: BiIndicatorDetailsVm,
    after: BiIndicatorDetailsVm,
    rec: IndicatorRecord,
    d: BiIndicatorSaveDto,
)
    requires
        is_loaded_from(before, after, rec),
        is_save_dto_of(after, d),
    ensures
        d.id == rec.id,
        d.code@ == text_or(rec.code, ""@),
        d.description@ == text_or(rec.description, ""@),
        d.status@ == text_or(rec.status, "draft"@),
        d.owner_user_id@ == text_or(rec.owner_user_id, ""@),
        d.is_public == (rec.is_public == Some(true)),
        d.version == (match rec.version {
            Some(v) => v,
            None => 1i64,
        }),
        opt_text(d.comment) == sent_text(rec.comment),
        match rec.data_spec {
            Some(ds) => d.schema_id@ == text_or(ds.schema_id, ""@)
                && d.query_config_json@ == text_or(ds.query_config_text, "{}"@)
                && opt_text(d.sql_artifact_id) == sent_text(ds.sql_artifact_id),
            None => d.schema_id == before.data_spec_schema_id
                && d.query_config_json == before.data_spec_query_config_json,
        },
        d.params_json == (match rec.params_text {
            Some(t) => t,
            None => before.params_json,
        }),
        match rec.view_spec {
            Some(vs) => d.style_name@ == text_or(vs.style_name, "classic"@)
                && opt_text(d.custom_html) == sent_text(vs.custom_html)
                && opt_text(d.custom_css) == sent_text(vs.custom_css)
                && d.format_json@ == text_or(vs.format_text, "{}"@)
                && d.thresholds_json@ == text_or(vs.thresholds_text, "[]"@),
            None => d.style_name == before.view_spec_style_name
                && d.format_json == before.view_spec_format_json
                && d.thresholds_json == before.view_spec_thresholds_json,
        },
        opt_text(d.drill_spec_json) == sent_drill(rec.drill_spec_text),
{
    reveal_strlit("");
}

impl BiIndicatorDetailsVm {
    /// The form as it is sent to be saved: the fields as they are, blank
    /// optional texts left out, and no drill-down when its text is blank or
    /// `null`.
    pub fn to_dto(&self) -> (r: BiIndicatorSaveDto)
        ensures
            is_save_dto_of(*self, r),
    {
        let drill = if drill_spec_is_null(self.drill_spec_json.as_str()) {
            None
        } else {
            Some(self.drill_spec_json.clone())
        };
        BiIndicatorSaveDto {
            id: clone_opt(&self.id),
            code: self.code.clone(),
            description: self.description.clone(),
            comment: nonblank_text(&self.comment),
            status: self.status.clone(),
            owner_user_id: self.owner_user_id.clone(),
            is_public: self.is_public,
            version: self.version,
            schema_id: self.data_spec_schema_id.clone(),
            query_config_json: self.data_spec_query_config_json.clone(),
            sql_artifact_id: nonblank_text(&self.data_spec_sql_artifact_id),
            params_json: self.params_json.clone(),
            style_name: self.view_spec_style_name.clone(),
            custom_html: nonblank_text(&self.view_spec_custom_html),
            custom_css: nonblank_text(&self.view_spec_custom_css),
            format_json: self.view_spec_format_json.clone(),
            thresholds_json: self.view_spec_thresholds_json.clone(),
            drill_spec_json: drill,
        }
    }

    /// Fills the form from a stored indicator. Missing texts read as empty,
    /// a missing status as `draft`, visibility as private, version as 1; within
    /// a present part, a missing query configuration or format reads as `{}`,
    /// missing thresholds as `[]`, a missing design as `classic`. Parts that are
    /// missing leave their fields unchanged; nothing outside the stored fields
    /// changes.
    pub fn from_raw(&mut self, rec: IndicatorRecord)
        ensures
            is_loaded_from(*old(self), *final(self), rec),
    {
        let IndicatorRecord {
            id,
            code,
            description,
            comment,
            status,
            owner_user_id,
            is_public,
            version,
            data_spec,
            params_text,
            view_spec,
            drill_spec_text,
            created_at,
            updated_at,
            created_by,
            updated_by,
        } = rec;
        self.id = id;
        self.code = take_or(code, "");
        self.description = take_or(description, "");
        self.comment = take_or(comment, "");
        self.status = take_or(status, "draft");
        self.owner_user_id = take_or(owner_user_id, "");
        self.is_public = match is_public {
            Some(b) => b,
            None => false,
        };
        self.version = match version {
            Some(v) => v,
            None => 1,
        };
        match data_spec {
            Some(ds) => {
                self.data_spec_schema_id = take_or(ds.schema_id, "");
                self.data_spec_sql_artifact_id = take_or(ds.sql_artifact_id, "");
                self.data_spec_query_config_json = take_or(ds.query_config_text, "{}");
            },
            None => {},
        }
        match params_text {
            Some(t) => {
                self.params_json = t;
            },
            None => {},
        }
        match view_spec {
            Some(vs) => {
                self.view_spec_style_name = take_or(vs.style_name, "classic");
                self.view_spec_custom_html = take_or(vs.custom_html, "");
                self.view_spec_custom_css = take_or(vs.custom_css, "");
                self.view_spec_format_json = take_or(vs.format_text, "{}");
                self.view_spec_thresholds_json = take_or(vs.thresholds_text, "[]");
            },
            None => {},
        }
        self.drill_spec_json = take_or(drill_spec_text, "");
        self.created_at = take_or(created_at, "");
        self.updated_at = take_or(updated_at, "");
        self.created_by = take_or(created_by, "");
        self.updated_by = take_or(updated_by, "");
    }

    /// Starts loading a stored indicator: marked loading, the error cleared.
    pub fn load(&mut self)
        ensures
            *final(self) == (BiIndicatorDetailsVm { loading: true, error: None, ..*old(self) }),
    {
        self.loading = true;
        self.error = None;
    }

    /// Ends loading: a record fills the form (see `from_raw`), a failure is
    /// shown as the error; either way loading is over.
    pub fn finish_load(&mut self, result: Result<IndicatorRecord, String>)
        ensures
            !final(self).loading,
            match result {
                Ok(rec) => is_loaded_from(
                    *old(self),
                    BiIndicatorDetailsVm { loading: old(self).loading, ..*final(self) },
                    rec,
                ),
                Err(e) => *final(self) == (BiIndicatorDetailsVm { loading: false, error: Some(e), ..*old(self) }),
            },
    {
        match result {
            Ok(rec) => {
                self.from_raw(rec);
                self.loading = false;
            },
            Err(e) => {
                self.error = Some(e);
                self.loading = false;
            },
        }
    }
}

} // verus!
