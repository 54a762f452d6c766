//! What is kept of the answers of a provider's setup form: which answers
//! become secrets, which stay in the provider configuration, and the
//! `pack-config-input.v1` record handed to the deployer.
//!
//! Answers are held as [`AnswerValue`]s; evaluating the form's visibility
//! rules, writing secrets and files are the caller's part.
use vstd::prelude::*;
use crate::text::{owned, concat, str_eq, chars_vec, has_char, ends_with, str_ends_with};
use crate::paths::{join_path, join, last_component, portable_path};
use crate::capability_runtime::opt_view;
use crate::demo_types::{json_string_text, json_quote};

verus! {

/// The schema tag of a `pack-config-input.v1` record.
pub const PACK_CONFIG_INPUT_SCHEMA: &'static str = "greentic.pack-config-input.v1";

/// Where, under the bundle root, `pack-config-input.v1` records are written.
pub const PACK_CONFIG_INPUT_DIR: &'static str = "state/pack-configs";

/// One answer of a setup form.
#[derive(Debug, PartialEq, Eq)]
pub enum AnswerValue {
    /// A JSON string, by its contents.
    Text(String),
    /// Any other JSON value, by its JSON text.
    Json(String),
}

/// The answers of a setup form.
pub enum AnswersDoc {
    /// A JSON object: its members in order.
    Object(Vec<(String, AnswerValue)>),
    /// Any other JSON value, by its JSON text.
    Other(String),
}

/// A question of the setup form, with the visibility the form's rules gave
/// it for the current answers (`None` when they gave none).
pub struct QuestionInfo {
    pub id: String,
    pub secret: bool,
    pub visibility: Option<bool>,
}

/// The `pack-config-input.v1` record of one provider.
pub struct PackConfigInput {
    pub schema: String,
    pub pack_id: String,
    pub env_id: String,
    pub bundle_id: String,
    /// Non-secret answers, inline.
    pub non_secret: Vec<(String, AnswerValue)>,
    /// Secret answers, as `secret://<env>/<bundle>/<pack>/<question>` references.
    pub secret_refs: Vec<(String, String)>,
}

/// An identifier that would corrupt a path or a secret reference.
pub struct SegmentError {
    pub message: String,
}

pub open spec fn answer_text_spec(v: AnswerValue) -> Seq<char> {
    match v {
        AnswerValue::Text(s) => s@,
        AnswerValue::Json(j) => j@,
    }
}

/// Whether an answer is worth keeping: its text is neither empty nor `null`.
pub open spec fn kept(v: AnswerValue) -> bool {
    answer_text_spec(v).len() > 0 && answer_text_spec(v) != "null"@
}

/// The text of an answer: a string's contents, or the JSON text of anything else.
pub fn answer_text(v: &AnswerValue) -> (r: String)
    ensures r@ == answer_text_spec(*v),
{
    match v {
        AnswerValue::Text(s) => s.clone(),
        AnswerValue::Json(j) => j.clone(),
    }
}

fn is_kept(v: &AnswerValue) -> (r: bool)
    ensures r == kept(*v),
{
    let t = answer_text(v);
    proof { reveal_strlit("null"); }
    t.as_str().unicode_len() > 0 && !str_eq(t.as_str(), "null")
}

pub open spec fn segment_ok(v: Seq<char>) -> bool {
    v.len() > 0 && !has_char(v, '/') && v != "."@ && v != ".."@
}

pub open spec fn segment_message(label: Seq<char>, v: Seq<char>) -> Seq<char> {
    if v.len() == 0 {
        label + " must not be empty for pack-config-input emission"@
    } else if has_char(v, '/') {
        label + " `"@ + v + "` contains '/' which would corrupt the pack-config-input layout"@
    } else {
        label + " `"@ + v + "` is a relative path component and would corrupt the pack-config-input layout"@
    }
}

fn contains_slash(s: &str) -> (r: bool)
    ensures r == has_char(s@, '/'),
{
    let v = chars_vec(s);
    let mut i: usize = 0;
    while i < v.len()
        invariant
            v@ == s@,
            i <= v@.len(),
            forall|k: int| 0 <= k < i ==> v@[k] != '/',
        decreases v.len() - i,
    {
        if v[i] == '/' {
            return true;
        }
        i = i + 1;
    }
    false
}

/// Refuses an identifier that is empty, holds `/`, or is `.` or `..`.
pub fn validate_segment(label: &str, value: &str) -> (r: Result<(), SegmentError>)
    ensures
        segment_ok(value@) <==> r is Ok,
        r matches Err(e) ==> e.message@ == segment_message(label@, value@),
{
    if value.unicode_len() == 0 {
        return Err(SegmentError { message: concat(label, " must not be empty for pack-config-input emission") });
    }
    if contains_slash(value) {
        let mut message = concat(label, " `");
        message.append(value);
        message.append("` contains '/' which would corrupt the pack-config-input layout");
        return Err(SegmentError { message });
    }
    if str_eq(value, ".") || str_eq(value, "..") {
        let mut message = concat(label, " `");
        message.append(value);
        message.append("` is a relative path component and would corrupt the pack-config-input layout");
        return Err(SegmentError { message });
    }
    Ok(())
}

/// The bundle id taken from the name of the bundle directory, or `bundle`
/// when there is no name or it is blank.
pub fn bundle_id_from_dir_name(name: Option<&str>) -> (r: String)
    ensures
        match name {
            Some(n) if crate::text::trim(n@).len() > 0 => r@ == n@,
            _ => r@ == "bundle"@,
        },
{
    match name {
        Some(n) => {
            let t = crate::text::trimmed(n);
            if t.as_str().unicode_len() > 0 {
                owned(n)
            } else {
                owned("bundle")
            }
        },
        None => owned("bundle"),
    }
}

/// The last component of a path (`Path::file_name`, then `to_str`, which
/// cannot fail on a path made from a `&str`). Claims what `Path::file_name`
/// and `Path::components` document, for the paths that every host splits
/// into the same `/`-separated names (`portable_path`: no backslash, no
/// colon, no leading `//` that would open a prefix): the result is
/// `last_component`. Of other paths nothing is claimed.
#[verifier::external_body]
fn dir_name(root: &str) -> (r: Option<String>)
    ensures
        portable_path(root@) ==> opt_view(r) == last_component(root@),
{
    std::path::Path::new(root).file_name().and_then(|n| n.to_str()).map(|n| n.to_string())
}

/// The bundle id of a bundle root: the name of its directory, with `bundle`
/// as the fallback.
pub fn infer_bundle_id(root: &str) -> (r: String)
    ensures
        r@ == "bundle"@ || crate::text::trim(r@).len() > 0,
        portable_path(root@) ==> r@ == match last_component(root@) {
            Some(n) if crate::text::trim(n).len() > 0 => n,
            _ => "bundle"@,
        },
{
    let name = dir_name(root);
    match &name {
        Some(n) => bundle_id_from_dir_name(Some(n.as_str())),
        None => bundle_id_from_dir_name(None),
    }
}

pub open spec fn question_visible(q: QuestionInfo) -> bool {
    match q.visibility {
        Some(v) => v,
        None => true,
    }
}

pub open spec fn is_visible_id(qs: Seq<QuestionInfo>, key: Seq<char>) -> bool {
    exists|i: int| 0 <= i < qs.len() && #[trigger] qs[i].id@ == key && question_visible(qs[i])
}

pub open spec fn is_secret_id(qs: Seq<QuestionInfo>, key: Seq<char>) -> bool {
    exists|i: int| 0 <= i < qs.len() && #[trigger] qs[i].id@ == key && qs[i].secret
}

/// The ids of the questions picked by `pick`, in order.
pub open spec fn ids_where(qs: Seq<QuestionInfo>, n: int, secret: bool) -> Seq<Seq<char>>
    decreases n,
{
    if n <= 0 {
        Seq::empty()
    } else {
        let prev = ids_where(qs, n - 1, secret);
        let q = qs[n - 1];
        if (secret && q.secret) || (!secret && question_visible(q)) { prev.push(q.id@) } else { prev }
    }
}

fn question_ids(questions: &[QuestionInfo], secret: bool) -> (r: Vec<String>)
    ensures r@.map_values(|s: String| s@) == ids_where(questions@, questions@.len() as int, secret),
{
    let mut r: Vec<String> = Vec::new();
    let mut i: usize = 0;
    while i < questions.len()
        invariant
            i <= questions@.len(),
            r@.map_values(|s: String| s@) == ids_where(questions@, i as int, secret),
        decreases questions.len() - i,
    {
        let q = &questions[i];
        let pick = if secret {
            q.secret
        } else {
            match q.visibility {
                Some(v) => v,
                None => true,
            }
        };
        let ghost before = r@;
        if pick {
            r.push(q.id.clone());
            assert(r@.map_values(|s: String| s@) =~= before.map_values(|s: String| s@).push(q.id@));
        }
        i = i + 1;
    }
    r
}

/// The ids of the secret questions, in form order.
pub fn secret_question_ids(questions: &[QuestionInfo]) -> (r: Vec<String>)
    ensures r@.map_values(|s: String| s@) == ids_where(questions@, questions@.len() as int, true),
{
    question_ids(questions, true)
}

/// The ids of the visible questions, in form order; a question the rules
/// gave no visibility counts as visible.
pub fn visible_question_ids(questions: &[QuestionInfo]) -> (r: Vec<String>)
    ensures r@.map_values(|s: String| s@) == ids_where(questions@, questions@.len() as int, false),
{
    question_ids(questions, false)
}

fn id_listed(ids: &Vec<String>, key: &str) -> (r: bool)
    ensures r == exists|i: int| 0 <= i < ids@.len() && #[trigger] ids@[i]@ == key@,
{
    let mut i: usize = 0;
    while i < ids.len()
        invariant
            i <= ids@.len(),
            forall|j: int| 0 <= j < i ==> #[trigger] ids@[j]@ != key@,
        decreases ids.len() - i,
    {
        if str_eq(ids[i].as_str(), key) {
            return true;
        }
        i = i + 1;
    }
    false
}

/// A copy of an answer.
pub fn clone_answer(v: &AnswerValue) -> (r: AnswerValue)
    ensures r == *v,
{
    match v {
        AnswerValue::Text(s) => AnswerValue::Text(s.clone()),
        AnswerValue::Json(j) => AnswerValue::Json(j.clone()),
    }
}

pub open spec fn not_listed(ids: Seq<Seq<char>>, key: Seq<char>) -> bool {
    forall|i: int| 0 <= i < ids.len() ==> ids[i] != key
}

/// The members of `entries[..n]` whose keys are not in `ids`, in order.
pub open spec fn without_keys(entries: Seq<(String, AnswerValue)>, n: int, ids: Seq<Seq<char>>) -> Seq<(String, AnswerValue)>
    decreases n,
{
    if n <= 0 {
        Seq::empty()
    } else {
        let prev = without_keys(entries, n - 1, ids);
        if not_listed(ids, entries[n - 1].0@) { prev.push(entries[n - 1]) } else { prev }
    }
}

/// The answers without the members named in `secret_ids`; anything other
/// than an object is returned as it is.
pub fn filter_secrets(config: &AnswersDoc, secret_ids: &Vec<String>) -> (r: AnswersDoc)
    ensures
        match *config {
            AnswersDoc::Object(entries) => r matches AnswersDoc::Object(kept_entries)
                && kept_entries@ == without_keys(entries@, entries@.len() as int, secret_ids@.map_values(|s: String| s@)),
            AnswersDoc::Other(text) => r matches AnswersDoc::Other(t) && t == text,
        },
{
    match config {
        AnswersDoc::Other(text) => AnswersDoc::Other(text.clone()),
        AnswersDoc::Object(entries) => {
            let ghost ids = secret_ids@.map_values(|s: String| s@);
            let mut out: Vec<(String, AnswerValue)> = Vec::new();
            let mut i: usize = 0;
            while i < entries.len()
                invariant
                    ids == secret_ids@.map_values(|s: String| s@),
                    i <= entries@.len(),
                    out@ == without_keys(entries@, i as int, ids),
                decreases entries.len() - i,
            {
                let listed = id_listed(secret_ids, entries[i].0.as_str());
                proof {
                    if listed {
                        let j = choose|j: int| 0 <= j < secret_ids@.len() && #[trigger] secret_ids@[j]@ == entries@[i as int].0@;
                        assert(ids[j] == entries@[i as int].0@);
                    } else {
                        assert forall|j: int| 0 <= j < ids.len() implies ids[j] != entries@[i as int].0@ by {
                            assert(ids[j] == secret_ids@[j]@);
                        }
                    }
                }
                if !listed {
                    out.push((entries[i].0.clone(), clone_answer(&entries[i].1)));
                }
                i = i + 1;
            }
            AnswersDoc::Object(out)
        },
    }
}

/// Whether the answers are a non-empty object, in which case the provider
/// configuration is written.
pub fn has_config_entries(config: &AnswersDoc) -> (r: bool)
    ensures r == (config matches AnswersDoc::Object(entries) && entries@.len() > 0),
{
    match config {
        AnswersDoc::Object(entries) => entries.len() > 0,
        AnswersDoc::Other(_) => false,
    }
}

/// The value of the first member of `entries[i..]` whose key is `key`.
pub open spec fn member_value(entries: Seq<(String, AnswerValue)>, key: Seq<char>, i: int) -> Option<AnswerValue>
    decreases entries.len() - i,
{
    if i < 0 || i >= entries.len() {
        None
    } else if entries[i].0@ == key {
        Some(entries[i].1)
    } else {
        member_value(entries, key, i + 1)
    }
}

/// The answers persisted as secrets: for the keys `visible[..n]` in order,
/// the answer of each that is present and kept, as (key, text).
pub open spec fn secret_values_spec(
    visible: Seq<Seq<char>>,
    n: int,
    entries: Seq<(String, AnswerValue)>,
) -> Seq<(Seq<char>, Seq<char>)>
    decreases n,
{
    if n <= 0 {
        Seq::empty()
    } else {
        let prev = secret_values_spec(visible, n - 1, entries);
        let key = visible[n - 1];
        match member_value(entries, key, 0) {
            Some(v) => if kept(v) { prev.push((key, answer_text_spec(v))) } else { prev },
            None => prev,
        }
    }
}

fn member_of<'a>(entries: &'a Vec<(String, AnswerValue)>, key: &str) -> (r: Option<&'a AnswerValue>)
    ensures
        match r {
            Some(v) => member_value(entries@, key@, 0) == Some(*v),
            None => member_value(entries@, key@, 0) is None,
        },
{
    let mut i: usize = 0;
    while i < entries.len()
        invariant
            i <= entries@.len(),
            member_value(entries@, key@, 0) == member_value(entries@, key@, i as int),
        decreases entries.len() - i,
    {
        if str_eq(entries[i].0.as_str(), key) {
            return Some(&entries[i].1);
        }
        i = i + 1;
    }
    None
}

/// The answers persisted as secrets for the questions `qs`.
pub open spec fn secret_values_for(qs: Seq<QuestionInfo>, entries: Seq<(String, AnswerValue)>) -> Seq<(Seq<char>, Seq<char>)> {
    let visible = ids_where(qs, qs.len() as int, false);
    secret_values_spec(visible, visible.len() as int, entries)
}

/// The answers to persist as secrets, as (question id, text): for each
/// visible question in form order, its answer when present and kept.
/// Nothing when the answers are not an object.
pub fn secret_values(questions: &[QuestionInfo], config: &AnswersDoc) -> (r: Vec<(String, String)>)
    ensures
        match *config {
            AnswersDoc::Object(entries) => r@.map_values(|p: (String, String)| (p.0@, p.1@))
                == secret_values_for(questions@, entries@),
            AnswersDoc::Other(_) => r@.len() == 0,
        },
{
    let entries = match config {
        AnswersDoc::Object(entries) => entries,
        AnswersDoc::Other(_) => return Vec::new(),
    };
    let visible = visible_question_ids(questions);
    let ghost vis = visible@.map_values(|s: String| s@);
    let mut r: Vec<(String, String)> = Vec::new();
    let mut i: usize = 0;
    while i < visible.len()
        invariant
            vis == visible@.map_values(|s: String| s@),
            i <= visible@.len(),
            r@.map_values(|p: (String, String)| (p.0@, p.1@)) == secret_values_spec(vis, i as int, entries@),
        decreases visible.len() - i,
    {
        let ghost before = r@;
        let key = &visible[i];
        assert(vis[i as int] == key@);
        match member_of(entries, key.as_str()) {
            Some(v) => {
                if is_kept(v) {
                    let text = answer_text(v);
                    r.push((key.clone(), text));
                    assert(r@.map_values(|p: (String, String)| (p.0@, p.1@))
                        =~= before.map_values(|p: (String, String)| (p.0@, p.1@)).push((vis[i as int], answer_text_spec(*v))));
                }
            },
            None => {},
        }
        i = i + 1;
    }
    r
}

/// The members of `entries[..n]` whose text is kept, as (key, text), in order.
pub open spec fn kept_values(entries: Seq<(String, AnswerValue)>, n: int) -> Seq<(Seq<char>, Seq<char>)>
    decreases n,
{
    if n <= 0 {
        Seq::empty()
    } else {
        let prev = kept_values(entries, n - 1);
        if kept(entries[n - 1].1) { prev.push((entries[n - 1].0@, answer_text_spec(entries[n - 1].1))) } else { prev }
    }
}

/// The answers persisted as secrets when no form is at hand: every member
/// whose text is kept, as (key, text), in order. Nothing when the answers
/// are not an object.
pub fn all_secret_values(config: &AnswersDoc) -> (r: Vec<(String, String)>)
    ensures
        match *config {
            AnswersDoc::Object(entries) => r@.map_values(|p: (String, String)| (p.0@, p.1@))
                == kept_values(entries@, entries@.len() as int),
            AnswersDoc::Other(_) => r@.len() == 0,
        },
{
    let entries = match config {
        AnswersDoc::Object(entries) => entries,
        AnswersDoc::Other(_) => return Vec::new(),
    };
    let mut r: Vec<(String, String)> = Vec::new();
    let mut i: usize = 0;
    while i < entries.len()
        invariant
            i <= entries@.len(),
            r@.map_values(|p: (String, String)| (p.0@, p.1@)) == kept_values(entries@, i as int),
        decreases entries.len() - i,
    {
        let ghost before = r@;
        if is_kept(&entries[i].1) {
            let text = answer_text(&entries[i].1);
            r.push((entries[i].0.clone(), text));
            assert(r@.map_values(|p: (String, String)| (p.0@, p.1@))
                =~= before.map_values(|p: (String, String)| (p.0@, p.1@)).push((entries@[i as int].0@, answer_text_spec(entries@[i as int].1))));
        }
        i = i + 1;
    }
    r
}

/// The text of the first member of `config[i..]` whose key ends
/// `requirement` and whose text is kept.
pub open spec fn alias_source(requirement: Seq<char>, config: Seq<(String, AnswerValue)>, i: int) -> Option<Seq<char>>
    decreases config.len() - i,
{
    if i < 0 || i >= config.len() {
        None
    } else if ends_with(requirement, config[i].0@) && kept(config[i].1) {
        Some(answer_text_spec(config[i].1))
    } else {
        alias_source(requirement, config, i + 1)
    }
}

/// The aliases of `requirements[..n]`, as (requirement key, text), in order.
pub open spec fn aliases_spec(
    requirements: Seq<Seq<char>>,
    n: int,
    existing: Seq<Seq<char>>,
    config: Seq<(String, AnswerValue)>,
) -> Seq<(Seq<char>, Seq<char>)>
    decreases n,
{
    if n <= 0 {
        Seq::empty()
    } else {
        let prev = aliases_spec(requirements, n - 1, existing, config);
        let req = requirements[n - 1];
        if existing.contains(req) {
            prev
        } else {
            match alias_source(req, config, 0) {
                Some(text) => prev.push((req, text)),
                None => prev,
            }
        }
    }
}

fn first_alias_source(requirement: &str, config: &Vec<(String, AnswerValue)>) -> (r: Option<String>)
    ensures
        match r {
            Some(t) => alias_source(requirement@, config@, 0) == Some(t@),
            None => alias_source(requirement@, config@, 0) is None,
        },
{
    let mut i: usize = 0;
    while i < config.len()
        invariant
            i <= config@.len(),
            alias_source(requirement@, config@, 0) == alias_source(requirement@, config@, i as int),
        decreases config.len() - i,
    {
        if str_ends_with(requirement, config[i].0.as_str()) && is_kept(&config[i].1) {
            return Some(answer_text(&config[i].1));
        }
        i = i + 1;
    }
    None
}

/// The secrets seeded under the keys a pack's secret requirements name, so
/// that a component looking a secret up by its requirement key finds the
/// answer given under a shorter key. Keys are compared in their canonical
/// form: `requirements` and the keys of `config` are canonical names, and
/// `existing` holds the keys already persisted. For each requirement in
/// order that is not already persisted, the first member of `config` whose
/// key ends the requirement key and whose text is kept gives the alias
/// (requirement key, text).
pub fn requirement_aliases(
    requirements: &Vec<String>,
    existing: &Vec<String>,
    config: &Vec<(String, AnswerValue)>,
) -> (r: Vec<(String, String)>)
    ensures
        r@.map_values(|p: (String, String)| (p.0@, p.1@)) == aliases_spec(
            requirements@.map_values(|s: String| s@), requirements@.len() as int,
            existing@.map_values(|s: String| s@), config@),
{
    let ghost reqs = requirements@.map_values(|s: String| s@);
    let ghost ex = existing@.map_values(|s: String| s@);
    let mut r: Vec<(String, String)> = Vec::new();
    let mut i: usize = 0;
    while i < requirements.len()
        invariant
            reqs == requirements@.map_values(|s: String| s@),
            ex == existing@.map_values(|s: String| s@),
            i <= requirements@.len(),
            r@.map_values(|p: (String, String)| (p.0@, p.1@)) == aliases_spec(reqs, i as int, ex, config@),
        decreases requirements.len() - i,
    {
        let ghost before = r@;
        let req = &requirements[i];
        let present = id_listed(existing, req.as_str());
        proof {
            if present {
                let j = choose|j: int| 0 <= j < existing@.len() && #[trigger] existing@[j]@ == req@;
                assert(ex[j] == req@);
            } else {
                assert forall|j: int| 0 <= j < ex.len() implies ex[j] != req@ by {
                    assert(ex[j] == existing@[j]@);
                }
            }
            assert(reqs[i as int] == req@);
        }
        if !present {
            match first_alias_source(req.as_str(), config) {
                Some(text) => {
                    r.push((req.clone(), text));
                    assert(r@.map_values(|p: (String, String)| (p.0@, p.1@))
                        =~= before.map_values(|p: (String, String)| (p.0@, p.1@)).push((req@, alias_source(req@, config@, 0)->Some_0)));
                },
                None => {},
            }
        }
        i = i + 1;
    }
    r
}

// ----- setup forms --------------------------------------------------------

#[verifier::external_type_specification]
#[verifier::external_body]
pub struct ExFormSpec(qa_spec::FormSpec);

/// The questions a setup form holds, in order, each as (id, secret flag,
/// visibility), the visibility being what `qa_spec::resolve_visibility` in
/// `Visible` mode gives the question for the answers in the JSON text
/// `answers` (read as `null` when it is not JSON).
pub uninterp spec fn resolved_visibility(form: qa_spec::FormSpec, answers: Seq<char>) -> Seq<(Seq<char>, bool, Option<bool>)>;

/// Whether the questions the form's rules resolve to for `answers` are the
/// form's own questions, with their ids and secret flags, in order.
pub open spec fn resolves_to_form(form: qa_spec::FormSpec, answers: Seq<char>) -> bool {
    &&& resolved_visibility(form, answers).len() == form_question_flags(form).len()
    &&& forall|i: int| 0 <= i < form_question_flags(form).len() ==>
        #[trigger] resolved_visibility(form, answers)[i].0 == form_question_flags(form)[i].0
        && resolved_visibility(form, answers)[i].1 == form_question_flags(form)[i].1
}

/// The views of questions: (id, secret flag, visibility).
pub open spec fn question_views(qs: Seq<QuestionInfo>) -> Seq<(Seq<char>, bool, Option<bool>)> {
    qs.map_values(|q: QuestionInfo| (q.id@, q.secret, q.visibility))
}

/// The questions of a setup form with the visibility that
/// `qa_spec::resolve_visibility` (in `Visible` mode) gives each of them for
/// the answers in `answers_json`, read with `serde_json::from_str` (`null`
/// when it is not JSON). Claims that their views are `resolved_visibility`
/// of the form and the answers, and two facts the source shows: they are
/// the form's questions (`form_question_flags`), one for one, and each has a
/// visibility, since `resolve_visibility` enters every question's id.
#[verifier::external_body]
fn resolved_questions(form_spec: &qa_spec::FormSpec, answers_json: &str) -> (r: Vec<QuestionInfo>)
    ensures
        question_views(r@) == resolved_visibility(*form_spec, answers_json@),
        r@.len() == form_question_flags(*form_spec).len(),
        forall|i: int| 0 <= i < r@.len() ==> #[trigger] r@[i].id@ == form_question_flags(*form_spec)[i].0
            && r@[i].secret == form_question_flags(*form_spec)[i].1
            && r@[i].visibility is Some,
{
    let answers: serde_json::Value = serde_json::from_str(answers_json).unwrap_or(serde_json::Value::Null);
    let visibility = qa_spec::resolve_visibility(form_spec, &answers, qa_spec::VisibilityMode::Visible);
    form_spec
        .questions
        .iter()
        .map(|q| QuestionInfo { id: q.id.clone(), secret: q.secret, visibility: visibility.get(&q.id).copied() })
        .collect()
}

/// Questions with the same views are picked alike.
proof fn lemma_ids_where_views(qs1: Seq<QuestionInfo>, qs2: Seq<QuestionInfo>, n: int, secret: bool)
    requires
        question_views(qs1) == question_views(qs2),
        0 <= n <= qs1.len(),
    ensures
        ids_where(qs1, n, secret) == ids_where(qs2, n, secret),
    decreases n,
{
    assert(qs1.len() == question_views(qs1).len());
    assert(qs2.len() == question_views(qs2).len());
    if n > 0 {
        lemma_ids_where_views(qs1, qs2, n - 1, secret);
        assert(question_views(qs1)[n - 1] == question_views(qs2)[n - 1]);
    }
}

/// Questions with the same views split the answers alike.
proof fn lemma_split_views(
    entries: Seq<(String, AnswerValue)>,
    n: int,
    qs1: Seq<QuestionInfo>,
    qs2: Seq<QuestionInfo>,
    env_id: Seq<char>,
    bundle_id: Seq<char>,
    pack_id: Seq<char>,
)
    requires
        question_views(qs1) == question_views(qs2),
        n <= entries.len(),
    ensures
        split_spec(entries, n, qs1, env_id, bundle_id, pack_id) == split_spec(entries, n, qs2, env_id, bundle_id, pack_id),
    decreases n,
{
    assert(qs1.len() == question_views(qs1).len());
    assert(qs2.len() == question_views(qs2).len());
    if n > 0 {
        lemma_split_views(entries, n - 1, qs1, qs2, env_id, bundle_id, pack_id);
        let key = entries[n - 1].0@;
        assert forall|i: int| 0 <= i < qs1.len() implies
            #[trigger] qs1[i].id@ == qs2[i].id@ && qs1[i].secret == qs2[i].secret && qs1[i].visibility == qs2[i].visibility by {
            assert(question_views(qs1)[i] == question_views(qs2)[i]);
        }
        assert(is_visible_id(qs1, key) == is_visible_id(qs2, key)) by {
            if is_visible_id(qs1, key) {
                let i = choose|i: int| 0 <= i < qs1.len() && #[trigger] qs1[i].id@ == key && question_visible(qs1[i]);
                assert(qs2[i].id@ == key);
            }
            if is_visible_id(qs2, key) {
                let i = choose|i: int| 0 <= i < qs2.len() && #[trigger] qs2[i].id@ == key && question_visible(qs2[i]);
                assert(qs1[i].id@ == key);
            }
        }
        assert(is_secret_id(qs1, key) == is_secret_id(qs2, key)) by {
            if is_secret_id(qs1, key) {
                let i = choose|i: int| 0 <= i < qs1.len() && #[trigger] qs1[i].id@ == key && qs1[i].secret;
                assert(qs2[i].id@ == key);
            }
            if is_secret_id(qs2, key) {
                let i = choose|i: int| 0 <= i < qs2.len() && #[trigger] qs2[i].id@ == key && qs2[i].secret;
                assert(qs1[i].id@ == key);
            }
        }
    }
}

/// What a setup form holds: the questions of its `questions` field, in
/// order, each as its id and its secret flag.
pub uninterp spec fn form_question_flags(form: qa_spec::FormSpec) -> Seq<(Seq<char>, bool)>;

/// The questions a setup form holds (its `questions` field, read in order),
/// with their ids, secret flags and no visibility. Claims that they are
/// `form_question_flags` of the form, one for one.
#[verifier::external_body]
fn form_questions(form_spec: &qa_spec::FormSpec) -> (r: Vec<QuestionInfo>)
    ensures
        r@.len() == form_question_flags(*form_spec).len(),
        forall|i: int| 0 <= i < r@.len() ==> #[trigger] r@[i].id@ == form_question_flags(*form_spec)[i].0
            && r@[i].secret == form_question_flags(*form_spec)[i].1
            && r@[i].visibility is None,
{
    form_spec
        .questions
        .iter()
        .map(|q| QuestionInfo { id: q.id.clone(), secret: q.secret, visibility: None })
        .collect()
}

/// The ids of the questions of `flags[..n]` whose secret flag is set, in order.
pub open spec fn flagged_ids(flags: Seq<(Seq<char>, bool)>, n: int) -> Seq<Seq<char>>
    decreases n,
{
    if n <= 0 {
        Seq::empty()
    } else {
        let prev = flagged_ids(flags, n - 1);
        if flags[n - 1].1 { prev.push(flags[n - 1].0) } else { prev }
    }
}

proof fn lemma_ids_where_flags(qs: Seq<QuestionInfo>, flags: Seq<(Seq<char>, bool)>, n: int)
    requires
        0 <= n <= qs.len(),
        qs.len() == flags.len(),
        forall|i: int| 0 <= i < qs.len() ==> #[trigger] qs[i].id@ == flags[i].0 && qs[i].secret == flags[i].1,
    ensures
        ids_where(qs, n, true) == flagged_ids(flags, n),
    decreases n,
{
    if n > 0 {
        lemma_ids_where_flags(qs, flags, n - 1);
        assert(qs[n - 1].id@ == flags[n - 1].0);
    }
}

/// The ids of the secret questions of a setup form, in form order.
pub fn form_secret_ids(form_spec: &qa_spec::FormSpec) -> (r: Vec<String>)
    ensures
        r@.map_values(|s: String| s@) == flagged_ids(form_question_flags(*form_spec), form_question_flags(*form_spec).len() as int),
{
    let questions = form_questions(form_spec);
    proof {
        lemma_ids_where_flags(questions@, form_question_flags(*form_spec), questions@.len() as int);
    }
    secret_question_ids(questions.as_slice())
}

/// The JSON text of an answer: a string quoted, anything else its own text.
pub open spec fn answer_json_spec(v: AnswerValue) -> Seq<char> {
    match v {
        AnswerValue::Text(t) => json_string_text(t@),
        AnswerValue::Json(j) => j@,
    }
}

/// The JSON text of the members `entries[..n]`, after an opening brace.
pub open spec fn members_text(entries: Seq<(String, AnswerValue)>, n: int) -> Seq<char>
    decreases n,
{
    if n <= 0 {
        "{"@
    } else {
        members_text(entries, n - 1) + (if n > 1 { ","@ } else { Seq::empty() })
            + json_string_text(entries[n - 1].0@) + ":"@ + answer_json_spec(entries[n - 1].1)
    }
}

/// The JSON text of the answers: an object of its members in order, or the
/// text of any other value.
pub open spec fn answers_json_text(doc: AnswersDoc) -> Seq<char> {
    match doc {
        AnswersDoc::Object(entries) => members_text(entries@, entries@.len() as int) + "}"@,
        AnswersDoc::Other(t) => t@,
    }
}

/// The JSON text of the answers (see [`answers_json_text`]), as the form's
/// visibility rules read them.
pub fn answers_json(config: &AnswersDoc) -> (r: String)
    ensures r@ == answers_json_text(*config),
{
    match config {
        AnswersDoc::Other(t) => t.clone(),
        AnswersDoc::Object(entries) => {
            let mut r = String::new();
            r.append("{");
            let mut i: usize = 0;
            while i < entries.len()
                invariant
                    i <= entries@.len(),
                    r@ == members_text(entries@, i as int),
                decreases entries.len() - i,
            {
                if i > 0 {
                    r.append(",");
                }
                let k = json_quote(entries[i].0.as_str());
                r.append(k.as_str());
                r.append(":");
                match &entries[i].1 {
                    AnswerValue::Text(t) => {
                        let q = json_quote(t.as_str());
                        r.append(q.as_str());
                    },
                    AnswerValue::Json(j) => r.append(j.as_str()),
                }
                i = i + 1;
                assert(r@ =~= members_text(entries@, i as int));
            }
            r.append("}");
            r
        },
    }
}

/// The answers persisted as secrets for a setup form: each answer to a
/// question the form's rules make visible for the answers (given to them as
/// their JSON text) whose text is kept, as (question id, text), in form order.
/// Nothing when the answers are not an object.
pub fn persisted_secret_values(form_spec: &qa_spec::FormSpec, config: &AnswersDoc) -> (r: Vec<(String, String)>)
    ensures
        match *config {
            AnswersDoc::Object(entries) => forall|qs: Seq<QuestionInfo>|
                question_views(qs) == resolved_visibility(*form_spec, answers_json_text(*config))
                ==> r@.map_values(|p: (String, String)| (p.0@, p.1@)) == #[trigger] secret_values_for(qs, entries@),
            AnswersDoc::Other(_) => r@.len() == 0,
        },
{
    match config {
        AnswersDoc::Other(_) => Vec::new(),
        AnswersDoc::Object(entries) => {
            let text = answers_json(config);
            let questions = resolved_questions(form_spec, text.as_str());
            let r = secret_values(questions.as_slice(), config);
            proof {
                assert forall|qs: Seq<QuestionInfo>|
                    question_views(qs) == resolved_visibility(*form_spec, answers_json_text(*config))
                    implies r@.map_values(|p: (String, String)| (p.0@, p.1@)) == #[trigger] secret_values_for(qs, entries@) by {
                    assert(qs.len() == question_views(qs).len());
                    assert(questions@.len() == question_views(questions@).len());
                    lemma_ids_where_views(questions@, qs, questions@.len() as int, false);
                }
            }
            r
        },
    }
}

/// The `pack-config-input.v1` record of one provider's answers to a setup
/// form: the split of [`build_pack_config_input`] for the form's questions,
/// with the visibility the form's rules give them for the answers, given to
/// them as their JSON text.
pub fn emit_pack_config_input(
    env_id: &str,
    bundle_id: &str,
    pack_id: &str,
    config: &AnswersDoc,
    form_spec: &qa_spec::FormSpec,
) -> (r: Result<Option<PackConfigInput>, SegmentError>)
    ensures
        !segment_ok(env_id@) ==> (r matches Err(e) && e.message@ == segment_message("env_id"@, env_id@)),
        segment_ok(env_id@) && !segment_ok(bundle_id@) ==> (r matches Err(e) && e.message@ == segment_message("bundle_id"@, bundle_id@)),
        segment_ok(env_id@) && segment_ok(bundle_id@) && !segment_ok(pack_id@) ==> (r matches Err(e) && e.message@ == segment_message("pack_id"@, pack_id@)),
        segment_ok(env_id@) && segment_ok(bundle_id@) && segment_ok(pack_id@) ==> match *config {
            AnswersDoc::Other(_) => r matches Ok(None),
            AnswersDoc::Object(entries) => (entries@.len() == 0 ==> r matches Ok(None))
                && forall|qs: Seq<QuestionInfo>| question_views(qs) == resolved_visibility(*form_spec, answers_json_text(*config))
                    ==> #[trigger] split_outcome(r, entries@, qs, env_id@, bundle_id@, pack_id@),
        },
        segment_ok(env_id@) && segment_ok(bundle_id@) && segment_ok(pack_id@)
            && (config matches AnswersDoc::Object(entries) && entries@.len() > 0) ==> resolves_to_form(*form_spec, answers_json_text(*config)),
{
    validate_segment("env_id", env_id)?;
    validate_segment("bundle_id", bundle_id)?;
    validate_segment("pack_id", pack_id)?;
    if !has_config_entries(config) {
        let r: Result<Option<PackConfigInput>, SegmentError> = Ok(None);
        proof {
            if let AnswersDoc::Object(entries) = config {
                assert forall|qs: Seq<QuestionInfo>| question_views(qs) == resolved_visibility(*form_spec, answers_json_text(*config))
                    implies #[trigger] split_outcome(r, entries@, qs, env_id@, bundle_id@, pack_id@) by {}
            }
        }
        return r;
    }
    let text = answers_json(config);
    let questions = resolved_questions(form_spec, text.as_str());
    let r = build_pack_config_input(env_id, bundle_id, pack_id, config, questions.as_slice());
    proof {
        assert forall|i: int| 0 <= i < form_question_flags(*form_spec).len() implies
            #[trigger] resolved_visibility(*form_spec, answers_json_text(*config))[i].0 == form_question_flags(*form_spec)[i].0
            && resolved_visibility(*form_spec, answers_json_text(*config))[i].1 == form_question_flags(*form_spec)[i].1 by {
            assert(question_views(questions@)[i] == (questions@[i].id@, questions@[i].secret, questions@[i].visibility));
        }
        if let AnswersDoc::Object(entries) = config {
            assert forall|qs: Seq<QuestionInfo>| question_views(qs) == resolved_visibility(*form_spec, answers_json_text(*config))
                implies #[trigger] split_outcome(r, entries@, qs, env_id@, bundle_id@, pack_id@) by {
                lemma_split_views(entries@, entries@.len() as int, questions@, qs, env_id@, bundle_id@, pack_id@);
            }
        }
    }
    r
}

// ----- pack-config-input.v1 -----------------------------------------------

/// How the members of the answers split, or the first secret question id
/// that is not a valid segment.
pub open spec fn split_spec(
    entries: Seq<(String, AnswerValue)>,
    n: int,
    qs: Seq<QuestionInfo>,
    env_id: Seq<char>,
    bundle_id: Seq<char>,
    pack_id: Seq<char>,
) -> Result<(Seq<(Seq<char>, AnswerValue)>, Seq<(Seq<char>, Seq<char>)>), Seq<char>>
    decreases n,
{
    if n <= 0 {
        Ok((Seq::empty(), Seq::empty()))
    } else {
        match split_spec(entries, n - 1, qs, env_id, bundle_id, pack_id) {
            Err(bad) => Err(bad),
            Ok((plain, refs)) => {
                let key = entries[n - 1].0@;
                let value = entries[n - 1].1;
                if !is_visible_id(qs, key) || !kept(value) {
                    Ok((plain, refs))
                } else if is_secret_id(qs, key) {
                    if segment_ok(key) {
                        Ok((plain, refs.push((key, "secret://"@ + env_id + "/"@ + bundle_id + "/"@ + pack_id + "/"@ + key))))
                    } else {
                        Err(key)
                    }
                } else {
                    Ok((plain.push((key, value)), refs))
                }
            },
        }
    }
}

/// Whether `r` is what the split of the members `entries` for the questions
/// `qs` gives, the three ids being valid segments: the first invalid secret
/// question id refused, no record when nothing remains, else the record of
/// the inline answers and the secret references.
pub open spec fn split_outcome(
    r: Result<Option<PackConfigInput>, SegmentError>,
    entries: Seq<(String, AnswerValue)>,
    qs: Seq<QuestionInfo>,
    env_id: Seq<char>,
    bundle_id: Seq<char>,
    pack_id: Seq<char>,
) -> bool {
    match split_spec(entries, entries.len() as int, qs, env_id, bundle_id, pack_id) {
        Err(bad) => r matches Err(e) && e.message@ == segment_message("question.id"@, bad),
        Ok((plain, refs)) => if plain.len() == 0 && refs.len() == 0 {
            r matches Ok(None)
        } else {
            r matches Ok(Some(input))
                && input.schema@ == PACK_CONFIG_INPUT_SCHEMA@
                && input.pack_id@ == pack_id
                && input.env_id@ == env_id
                && input.bundle_id@ == bundle_id
                && input.non_secret@.map_values(|p: (String, AnswerValue)| (p.0@, p.1)) == plain
                && input.secret_refs@.map_values(|p: (String, String)| (p.0@, p.1@)) == refs
        },
    }
}

/// The secret reference of question `key`.
pub fn secret_ref(env_id: &str, bundle_id: &str, pack_id: &str, key: &str) -> (r: String)
    ensures r@ == "secret://"@ + env_id@ + "/"@ + bundle_id@ + "/"@ + pack_id@ + "/"@ + key@,
{
    let mut r = concat("secret://", env_id);
    r.append("/");
    r.append(bundle_id);
    r.append("/");
    r.append(pack_id);
    r.append("/");
    r.append(key);
    r
}

/// Builds the `pack-config-input.v1` record of one provider's answers.
///
/// The three ids must be valid segments (checked in the order env, bundle,
/// pack). Answers that are not an object, or an empty object, give nothing.
/// Of the members, those of visible questions whose text is kept are split:
/// secret ones become references (their question id must be a valid
/// segment), the others stay inline. When none remains there is no record.
pub fn build_pack_config_input(
    env_id: &str,
    bundle_id: &str,
    pack_id: &str,
    config: &AnswersDoc,
    questions: &[QuestionInfo],
) -> (r: Result<Option<PackConfigInput>, SegmentError>)
    ensures
        !segment_ok(env_id@) ==> (r matches Err(e) && e.message@ == segment_message("env_id"@, env_id@)),
        segment_ok(env_id@) && !segment_ok(bundle_id@) ==> (r matches Err(e) && e.message@ == segment_message("bundle_id"@, bundle_id@)),
        segment_ok(env_id@) && segment_ok(bundle_id@) && !segment_ok(pack_id@) ==> (r matches Err(e) && e.message@ == segment_message("pack_id"@, pack_id@)),
        segment_ok(env_id@) && segment_ok(bundle_id@) && segment_ok(pack_id@) ==> match *config {
            AnswersDoc::Other(_) => r matches Ok(None),
            AnswersDoc::Object(entries) => split_outcome(r, entries@, questions@, env_id@, bundle_id@, pack_id@),
        },
{
    validate_segment("env_id", env_id)?;
    validate_segment("bundle_id", bundle_id)?;
    validate_segment("pack_id", pack_id)?;
    let entries = match config {
        AnswersDoc::Object(entries) => entries,
        AnswersDoc::Other(_) => return Ok(None),
    };
    if entries.len() == 0 {
        return Ok(None);
    }
    let visible = visible_question_ids(questions);
    let secrets = secret_question_ids(questions);
    let mut plain: Vec<(String, AnswerValue)> = Vec::new();
    let mut refs: Vec<(String, String)> = Vec::new();
    let mut i: usize = 0;
    assert(plain@.map_values(|p: (String, AnswerValue)| (p.0@, p.1)) =~= Seq::<(Seq<char>, AnswerValue)>::empty());
    assert(refs@.map_values(|p: (String, String)| (p.0@, p.1@)) =~= Seq::<(Seq<char>, Seq<char>)>::empty());
    while i < entries.len()
        invariant
            *config == AnswersDoc::Object(*entries),
            segment_ok(env_id@),
            segment_ok(bundle_id@),
            segment_ok(pack_id@),
            i <= entries@.len(),
            visible@.map_values(|s: String| s@) == ids_where(questions@, questions@.len() as int, false),
            secrets@.map_values(|s: String| s@) == ids_where(questions@, questions@.len() as int, true),
            split_spec(entries@, i as int, questions@, env_id@, bundle_id@, pack_id@)
                == Ok::<(Seq<(Seq<char>, AnswerValue)>, Seq<(Seq<char>, Seq<char>)>), Seq<char>>((
                    plain@.map_values(|p: (String, AnswerValue)| (p.0@, p.1)),
                    refs@.map_values(|p: (String, String)| (p.0@, p.1@)))),
        decreases entries.len() - i,
    {
        let key = &entries[i].0;
        let value = &entries[i].1;
        let vis = id_listed(&visible, key.as_str());
        let sec = id_listed(&secrets, key.as_str());
        proof {
            lemma_ids_where(questions@, questions@.len() as int, false, key@);
            lemma_ids_where(questions@, questions@.len() as int, true, key@);
            if vis {
                let j = choose|j: int| 0 <= j < visible@.len() && #[trigger] visible@[j]@ == key@;
                assert(visible@.map_values(|s: String| s@)[j] == key@);
            } else {
                assert forall|j: int| 0 <= j < ids_where(questions@, questions@.len() as int, false).len()
                    implies ids_where(questions@, questions@.len() as int, false)[j] != key@ by {
                    assert(visible@.map_values(|s: String| s@)[j] == visible@[j]@);
                }
            }
            if sec {
                let j = choose|j: int| 0 <= j < secrets@.len() && #[trigger] secrets@[j]@ == key@;
                assert(secrets@.map_values(|s: String| s@)[j] == key@);
            } else {
                assert forall|j: int| 0 <= j < ids_where(questions@, questions@.len() as int, true).len()
                    implies ids_where(questions@, questions@.len() as int, true)[j] != key@ by {
                    assert(secrets@.map_values(|s: String| s@)[j] == secrets@[j]@);
                }
            }
        }
        let ghost plain_before = plain@;
        let ghost refs_before = refs@;
        if vis && is_kept(value) {
            if sec {
                match validate_segment("question.id", key.as_str()) {
                    Ok(()) => {},
                    Err(e) => {
                        proof {
                            assert(split_spec(entries@, (i + 1) as int, questions@, env_id@, bundle_id@, pack_id@) == Err::<(Seq<(Seq<char>, AnswerValue)>, Seq<(Seq<char>, Seq<char>)>), Seq<char>>(key@));
                            lemma_split_err_sticks(entries@, (i + 1) as int, entries@.len() as int, questions@, env_id@, bundle_id@, pack_id@);
                        }
                        return Err(e);
                    },
                }
                let uri = secret_ref(env_id, bundle_id, pack_id, key.as_str());
                refs.push((key.clone(), uri));
                assert(refs@.map_values(|p: (String, String)| (p.0@, p.1@))
                    =~= refs_before.map_values(|p: (String, String)| (p.0@, p.1@)).push((key@, "secret://"@ + env_id@ + "/"@ + bundle_id@ + "/"@ + pack_id@ + "/"@ + key@)));
            } else {
                plain.push((key.clone(), clone_answer(value)));
                assert(plain@.map_values(|p: (String, AnswerValue)| (p.0@, p.1))
                    =~= plain_before.map_values(|p: (String, AnswerValue)| (p.0@, p.1)).push((key@, *value)));
            }
        }
        i = i + 1;
    }
    if plain.len() == 0 && refs.len() == 0 {
        return Ok(None);
    }
    Ok(Some(PackConfigInput {
        schema: owned(PACK_CONFIG_INPUT_SCHEMA),
        pack_id: owned(pack_id),
        env_id: owned(env_id),
        bundle_id: owned(bundle_id),
        non_secret: plain,
        secret_refs: refs,
    }))
}

proof fn lemma_ids_where(qs: Seq<QuestionInfo>, n: int, secret: bool, key: Seq<char>)
    requires 0 <= n <= qs.len(),
    ensures
        (exists|j: int| 0 <= j < ids_where(qs, n, secret).len() && ids_where(qs, n, secret)[j] == key)
            <==> (exists|i: int| 0 <= i < n && #[trigger] qs[i].id@ == key
                && (if secret { qs[i].secret } else { question_visible(qs[i]) })),
    decreases n,
{
    if n > 0 {
        lemma_ids_where(qs, n - 1, secret, key);
        let prev = ids_where(qs, n - 1, secret);
        let cur = ids_where(qs, n, secret);
        if exists|i: int| 0 <= i < n && #[trigger] qs[i].id@ == key
            && (if secret { qs[i].secret } else { question_visible(qs[i]) }) {
            let i = choose|i: int| 0 <= i < n && #[trigger] qs[i].id@ == key
                && (if secret { qs[i].secret } else { question_visible(qs[i]) });
            if i == n - 1 {
                assert(cur[prev.len() as int] == key);
            } else {
                let j = choose|j: int| 0 <= j < prev.len() && prev[j] == key;
                assert(cur[j] == key);
            }
        }
        if exists|j: int| 0 <= j < cur.len() && cur[j] == key {
            let j = choose|j: int| 0 <= j < cur.len() && cur[j] == key;
            if j < prev.len() {
                assert(prev[j] == key);
            } else {
                assert(qs[n - 1].id@ == key);
            }
        }
    }
}

proof fn lemma_split_err_sticks(
    entries: Seq<(String, AnswerValue)>,
    m: int,
    n: int,
    qs: Seq<QuestionInfo>,
    env_id: Seq<char>,
    bundle_id: Seq<char>,
    pack_id: Seq<char>,
)
    requires
        0 <= m <= n,
        split_spec(entries, m, qs, env_id, bundle_id, pack_id) is Err,
    ensures
        split_spec(entries, n, qs, env_id, bundle_id, pack_id) == split_spec(entries, m, qs, env_id, bundle_id, pack_id),
    decreases n - m,
{
    if n > m {
        lemma_split_err_sticks(entries, m, n - 1, qs, env_id, bundle_id, pack_id);
    }
}

/// Where the record of `pack_id` is written under `bundle_root`.
pub fn pack_config_input_path(bundle_root: &str, pack_id: &str) -> (r: String)
    ensures r@ == join_path(join_path(bundle_root@, PACK_CONFIG_INPUT_DIR@), pack_id@ + ".json"@),
{
    let dir = join(bundle_root, PACK_CONFIG_INPUT_DIR);
    let file = concat(pack_id, ".json");
    join(dir.as_str(), file.as_str())
}

} // verus!

verus! {

/// Filtering secrets keeps exactly the members whose keys are not secret
/// ids, in order: none of the secret ids survives, and every other member does.
pub proof fn lemma_filter_secrets_exact(entries: Seq<(String, AnswerValue)>, n: int, ids: Seq<Seq<char>>)
    requires 0 <= n <= entries.len(),
    ensures
        forall|i: int| 0 <= i < without_keys(entries, n, ids).len()
            ==> not_listed(ids, #[trigger] without_keys(entries, n, ids)[i].0@),
        forall|j: int| 0 <= j < n && not_listed(ids, #[trigger] entries[j].0@)
            ==> without_keys(entries, n, ids).contains(entries[j]),
    decreases n,
{
    if n > 0 {
        lemma_filter_secrets_exact(entries, n - 1, ids);
        let prev = without_keys(entries, n - 1, ids);
        let cur = without_keys(entries, n, ids);
        assert forall|j: int| 0 <= j < n && not_listed(ids, #[trigger] entries[j].0@) implies cur.contains(entries[j]) by {
            if j < n - 1 {
                let k = choose|k: int| 0 <= k < prev.len() && prev[k] == entries[j];
                assert(cur[k] == entries[j]);
            } else {
                assert(cur[prev.len() as int] == entries[j]);
            }
        }
        assert forall|i: int| 0 <= i < cur.len() implies not_listed(ids, #[trigger] cur[i].0@) by {
            if i < prev.len() {
                assert(cur[i] == prev[i]);
            }
        }
    }
}

/// The split of the answers never puts a secret inline: every inline member
/// is a visible, non-secret question, and every secret becomes a reference
/// `secret://<env>/<bundle>/<pack>/<question>` to a visible secret question.
pub proof fn lemma_split_keeps_secrets_out(
    entries: Seq<(String, AnswerValue)>,
    n: int,
    qs: Seq<QuestionInfo>,
    env_id: Seq<char>,
    bundle_id: Seq<char>,
    pack_id: Seq<char>,
)
    requires
        0 <= n <= entries.len(),
        split_spec(entries, n, qs, env_id, bundle_id, pack_id) is Ok,
    ensures
        ({
            let (plain, refs) = split_spec(entries, n, qs, env_id, bundle_id, pack_id)->Ok_0;
            &&& forall|i: int| 0 <= i < plain.len() ==>
                !is_secret_id(qs, #[trigger] plain[i].0) && is_visible_id(qs, plain[i].0) && kept(plain[i].1)
            &&& forall|i: int| 0 <= i < refs.len() ==>
                is_secret_id(qs, #[trigger] refs[i].0) && is_visible_id(qs, refs[i].0) && segment_ok(refs[i].0)
                && refs[i].1 == "secret://"@ + env_id + "/"@ + bundle_id + "/"@ + pack_id + "/"@ + refs[i].0
        }),
    decreases n,
{
    if n > 0 {
        lemma_split_keeps_secrets_out(entries, n - 1, qs, env_id, bundle_id, pack_id);
    }
}

/// Secret references of valid segments determine their parts: two equal
/// references name the same environment, bundle, pack and question.
pub proof fn lemma_secret_ref_injective(
    e1: Seq<char>, b1: Seq<char>, p1: Seq<char>, k1: Seq<char>,
    e2: Seq<char>, b2: Seq<char>, p2: Seq<char>, k2: Seq<char>,
)
    requires
        segment_ok(e1), segment_ok(b1), segment_ok(p1),
        segment_ok(e2), segment_ok(b2), segment_ok(p2),
        "secret://"@ + e1 + "/"@ + b1 + "/"@ + p1 + "/"@ + k1 == "secret://"@ + e2 + "/"@ + b2 + "/"@ + p2 + "/"@ + k2,
    ensures
        e1 == e2, b1 == b2, p1 == p2, k1 == k2,
{
    reveal_strlit("secret://");
    reveal_strlit("/");
    let s = "secret://"@ + e1 + "/"@ + b1 + "/"@ + p1 + "/"@ + k1;
    let t1 = e1 + "/"@ + b1 + "/"@ + p1 + "/"@ + k1;
    let t2 = e2 + "/"@ + b2 + "/"@ + p2 + "/"@ + k2;
    assert(s.subrange(9, s.len() as int) =~= t1);
    assert(("secret://"@ + e2 + "/"@ + b2 + "/"@ + p2 + "/"@ + k2).subrange(9, s.len() as int) =~= t2);
    assert(t1 == t2);
    assert(t1 =~= e1 + "/"@ + (b1 + "/"@ + p1 + "/"@ + k1));
    assert(t2 =~= e2 + "/"@ + (b2 + "/"@ + p2 + "/"@ + k2));
    lemma_split_first_segment(e1, b1 + "/"@ + p1 + "/"@ + k1, e2, b2 + "/"@ + p2 + "/"@ + k2);
    assert(b1 + "/"@ + p1 + "/"@ + k1 =~= b1 + "/"@ + (p1 + "/"@ + k1));
    assert(b2 + "/"@ + p2 + "/"@ + k2 =~= b2 + "/"@ + (p2 + "/"@ + k2));
    lemma_split_first_segment(b1, p1 + "/"@ + k1, b2, p2 + "/"@ + k2);
    lemma_split_first_segment(p1, k1, p2, k2);
}

proof fn lemma_split_first_segment(a1: Seq<char>, r1: Seq<char>, a2: Seq<char>, r2: Seq<char>)
    requires
        !has_char(a1, '/'),
        !has_char(a2, '/'),
        a1 + "/"@ + r1 == a2 + "/"@ + r2,
    ensures
        a1 == a2, r1 == r2,
{
    reveal_strlit("/");
    let s1 = a1 + "/"@ + r1;
    let s2 = a2 + "/"@ + r2;
    if a1.len() < a2.len() {
        assert(s1[a1.len() as int] == '/');
        assert(s2[a1.len() as int] == a2[a1.len() as int]);
        assert(false);
    } else if a2.len() < a1.len() {
        assert(s2[a2.len() as int] == '/');
        assert(s1[a2.len() as int] == a1[a2.len() as int]);
        assert(false);
    }
    assert(a1 =~= s1.subrange(0, a1.len() as int));
    assert(a2 =~= s2.subrange(0, a2.len() as int));
    assert(r1 =~= s1.subrange(a1.len() as int + 1, s1.len() as int));
    assert(r2 =~= s2.subrange(a2.len() as int + 1, s2.len() as int));
}

/// Answers to a question the form marks secret never stay inline: for the
/// questions a form's rules resolve to, every inline member of the split
/// answers a question that the form does not mark secret.
pub proof fn lemma_form_secrets_never_inline(
    form: qa_spec::FormSpec,
    answers: Seq<char>,
    qs: Seq<QuestionInfo>,
    entries: Seq<(String, AnswerValue)>,
    env_id: Seq<char>,
    bundle_id: Seq<char>,
    pack_id: Seq<char>,
)
    requires
        question_views(qs) == resolved_visibility(form, answers),
        resolves_to_form(form, answers),
        split_spec(entries, entries.len() as int, qs, env_id, bundle_id, pack_id) is Ok,
    ensures
        ({
            let plain = split_spec(entries, entries.len() as int, qs, env_id, bundle_id, pack_id)->Ok_0.0;
            forall|k: int, i: int| 0 <= k < plain.len() && 0 <= i < form_question_flags(form).len()
                && #[trigger] form_question_flags(form)[i].0 == #[trigger] plain[k].0
                ==> !form_question_flags(form)[i].1
        }),
{
    lemma_split_keeps_secrets_out(entries, entries.len() as int, qs, env_id, bundle_id, pack_id);
    let plain = split_spec(entries, entries.len() as int, qs, env_id, bundle_id, pack_id)->Ok_0.0;
    assert(qs.len() == question_views(qs).len());
    assert forall|k: int, i: int| 0 <= k < plain.len() && 0 <= i < form_question_flags(form).len()
        && #[trigger] form_question_flags(form)[i].0 == #[trigger] plain[k].0
        implies !form_question_flags(form)[i].1 by {
        assert(question_views(qs)[i] == (qs[i].id@, qs[i].secret, qs[i].visibility));
        assert(resolved_visibility(form, answers)[i].0 == form_question_flags(form)[i].0);
        if form_question_flags(form)[i].1 {
            assert(qs[i].id@ == plain[k].0 && qs[i].secret);
            assert(is_secret_id(qs, plain[k].0));
        }
    }
}

/// Whether the members of an object have distinct keys, as a JSON map's do.
pub open spec fn distinct_keys(entries: Seq<(String, AnswerValue)>) -> bool {
    forall|a: int, b: int| 0 <= a < b < entries.len() ==> #[trigger] entries[a].0@ != #[trigger] entries[b].0@
}

proof fn lemma_split_keys_from(
    entries: Seq<(String, AnswerValue)>,
    n: int,
    qs: Seq<QuestionInfo>,
    env_id: Seq<char>,
    bundle_id: Seq<char>,
    pack_id: Seq<char>,
)
    requires
        0 <= n <= entries.len(),
        split_spec(entries, n, qs, env_id, bundle_id, pack_id) is Ok,
    ensures
        ({
            let (plain, refs) = split_spec(entries, n, qs, env_id, bundle_id, pack_id)->Ok_0;
            &&& forall|k: int| #![trigger plain[k]] 0 <= k < plain.len() ==> exists|j: int| 0 <= j < n && #[trigger] entries[j].0@ == plain[k].0
            &&& forall|k: int| #![trigger refs[k]] 0 <= k < refs.len() ==> exists|j: int| 0 <= j < n && #[trigger] entries[j].0@ == refs[k].0
        }),
    decreases n,
{
    if n > 0 {
        lemma_split_keys_from(entries, n - 1, qs, env_id, bundle_id, pack_id);
    }
}

/// Members with distinct keys split into inline answers with distinct keys
/// and secret references with distinct keys, as the record's maps hold them.
pub proof fn lemma_split_keys_distinct(
    entries: Seq<(String, AnswerValue)>,
    n: int,
    qs: Seq<QuestionInfo>,
    env_id: Seq<char>,
    bundle_id: Seq<char>,
    pack_id: Seq<char>,
)
    requires
        0 <= n <= entries.len(),
        distinct_keys(entries),
        split_spec(entries, n, qs, env_id, bundle_id, pack_id) is Ok,
    ensures
        ({
            let (plain, refs) = split_spec(entries, n, qs, env_id, bundle_id, pack_id)->Ok_0;
            &&& forall|a: int, b: int| 0 <= a < b < plain.len() ==> #[trigger] plain[a].0 != #[trigger] plain[b].0
            &&& forall|a: int, b: int| 0 <= a < b < refs.len() ==> #[trigger] refs[a].0 != #[trigger] refs[b].0
        }),
    decreases n,
{
    if n > 0 {
        lemma_split_keys_distinct(entries, n - 1, qs, env_id, bundle_id, pack_id);
        lemma_split_keys_from(entries, n - 1, qs, env_id, bundle_id, pack_id);
        let (plain0, refs0) = split_spec(entries, n - 1, qs, env_id, bundle_id, pack_id)->Ok_0;
        let (plain, refs) = split_spec(entries, n, qs, env_id, bundle_id, pack_id)->Ok_0;
        let key = entries[n - 1].0@;
        assert forall|k: int| 0 <= k < plain0.len() implies plain0[k].0 != key by {
            let j = choose|j: int| 0 <= j < n - 1 && #[trigger] entries[j].0@ == plain0[k].0;
            assert(entries[j].0@ != entries[n - 1].0@);
        }
        assert forall|k: int| 0 <= k < refs0.len() implies refs0[k].0 != key by {
            let j = choose|j: int| 0 <= j < n - 1 && #[trigger] entries[j].0@ == refs0[k].0;
            assert(entries[j].0@ != entries[n - 1].0@);
        }
        assert forall|a: int, b: int| 0 <= a < b < plain.len() implies #[trigger] plain[a].0 != #[trigger] plain[b].0 by {
            if b == plain0.len() {
                assert(plain[a] == plain0[a]);
            } else {
                assert(plain[a] == plain0[a] && plain[b] == plain0[b]);
            }
        }
        assert forall|a: int, b: int| 0 <= a < b < refs.len() implies #[trigger] refs[a].0 != #[trigger] refs[b].0 by {
            if b == refs0.len() {
                assert(refs[a] == refs0[a]);
            } else {
                assert(refs[a] == refs0[a] && refs[b] == refs0[b]);
            }
        }
    }
}

/// The split records only answers that were given: every inline member and
/// every secret reference names a member of the answers whose text is
/// neither empty nor `null`, and an inline member carries that member's value.
pub proof fn lemma_split_records_only_given_answers(
    entries: Seq<(String, AnswerValue)>,
    n: int,
    qs: Seq<QuestionInfo>,
    env_id: Seq<char>,
    bundle_id: Seq<char>,
    pack_id: Seq<char>,
)
    requires
        0 <= n <= entries.len(),
        split_spec(entries, n, qs, env_id, bundle_id, pack_id) is Ok,
    ensures
        ({
            let (plain, refs) = split_spec(entries, n, qs, env_id, bundle_id, pack_id)->Ok_0;
            &&& forall|k: int| #![trigger plain[k]] 0 <= k < plain.len() ==> exists|j: int| 0 <= j < n
                && #[trigger] entries[j].0@ == plain[k].0 && entries[j].1 == plain[k].1
                && answer_text_spec(entries[j].1).len() > 0 && answer_text_spec(entries[j].1) != "null"@
            &&& forall|k: int| #![trigger refs[k]] 0 <= k < refs.len() ==> exists|j: int| 0 <= j < n
                && #[trigger] entries[j].0@ == refs[k].0
                && answer_text_spec(entries[j].1).len() > 0 && answer_text_spec(entries[j].1) != "null"@
        }),
    decreases n,
{
    if n > 0 {
        lemma_split_records_only_given_answers(entries, n - 1, qs, env_id, bundle_id, pack_id);
        let (plain0, refs0) = split_spec(entries, n - 1, qs, env_id, bundle_id, pack_id)->Ok_0;
        let (plain, refs) = split_spec(entries, n, qs, env_id, bundle_id, pack_id)->Ok_0;
        assert forall|k: int| #![trigger plain[k]] 0 <= k < plain.len() implies exists|j: int| 0 <= j < n
            && #[trigger] entries[j].0@ == plain[k].0 && entries[j].1 == plain[k].1
            && answer_text_spec(entries[j].1).len() > 0 && answer_text_spec(entries[j].1) != "null"@ by {
            if k < plain0.len() {
                assert(plain[k] == plain0[k]);
                let j = choose|j: int| 0 <= j < n - 1
                    && #[trigger] entries[j].0@ == plain0[k].0 && entries[j].1 == plain0[k].1
                    && answer_text_spec(entries[j].1).len() > 0 && answer_text_spec(entries[j].1) != "null"@;
                assert(entries[j].0@ == plain[k].0);
            } else {
                assert(entries[n - 1].0@ == plain[k].0);
            }
        }
        assert forall|k: int| #![trigger refs[k]] 0 <= k < refs.len() implies exists|j: int| 0 <= j < n
            && #[trigger] entries[j].0@ == refs[k].0
            && answer_text_spec(entries[j].1).len() > 0 && answer_text_spec(entries[j].1) != "null"@ by {
            if k < refs0.len() {
                assert(refs[k] == refs0[k]);
                let j = choose|j: int| 0 <= j < n - 1
                    && #[trigger] entries[j].0@ == refs0[k].0
                    && answer_text_spec(entries[j].1).len() > 0 && answer_text_spec(entries[j].1) != "null"@;
                assert(entries[j].0@ == refs[k].0);
            } else {
                assert(entries[n - 1].0@ == refs[k].0);
            }
        }
    }
}

proof fn lemma_member_value_found(entries: Seq<(String, AnswerValue)>, key: Seq<char>, i: int)
    requires
        0 <= i,
        member_value(entries, key, i) is Some,
    ensures
        exists|j: int| i <= j < entries.len() && #[trigger] entries[j].0@ == key
            && entries[j].1 == member_value(entries, key, i)->Some_0,
    decreases entries.len() - i,
{
    if i < entries.len() && entries[i].0@ != key {
        lemma_member_value_found(entries, key, i + 1);
    }
}

/// Only answers that were given become secrets: every (key, text) persisted
/// has a text that is neither empty nor `null`, its key is one of the
/// visible questions, and it is the text of the member of that key.
pub proof fn lemma_persisted_secrets_were_given(
    visible: Seq<Seq<char>>,
    n: int,
    entries: Seq<(String, AnswerValue)>,
)
    requires
        0 <= n <= visible.len(),
    ensures
        ({
            let r = secret_values_spec(visible, n, entries);
            forall|k: int| #![trigger r[k]] 0 <= k < r.len() ==> {
                &&& r[k].1.len() > 0
                &&& r[k].1 != "null"@
                &&& visible.contains(r[k].0)
                &&& exists|j: int| 0 <= j < entries.len() && #[trigger] entries[j].0@ == r[k].0
                    && answer_text_spec(entries[j].1) == r[k].1
            }
        }),
    decreases n,
{
    if n > 0 {
        lemma_persisted_secrets_were_given(visible, n - 1, entries);
        let prev = secret_values_spec(visible, n - 1, entries);
        let r = secret_values_spec(visible, n, entries);
        let key = visible[n - 1];
        if member_value(entries, key, 0) is Some {
            lemma_member_value_found(entries, key, 0);
        }
        assert forall|k: int| #![trigger r[k]] 0 <= k < r.len() implies {
            &&& r[k].1.len() > 0
            &&& r[k].1 != "null"@
            &&& visible.contains(r[k].0)
            &&& exists|j: int| 0 <= j < entries.len() && #[trigger] entries[j].0@ == r[k].0
                && answer_text_spec(entries[j].1) == r[k].1
        } by {
            if k < prev.len() {
                assert(r[k] == prev[k]);
            } else {
                assert(visible[n - 1] == r[k].0);
            }
        }
    }
}

} // verus!
