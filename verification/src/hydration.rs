//! Playlist hydration: a playlist entry combined with its slide's manifest, as the
//! management editors show it — the effective duration and transitions, and the ways
//! the entry's parameters break the manifest's parameter schema.
//!
//! Durations resolve entry → playlist defaults → manifest display section → engine
//! default; transitions resolve the first name present in the same order (without the
//! engine step) and then parse it.

use vstd::prelude::*;

use crate::json::{json_match, same_json, JsonNumber, JsonValue};
use crate::manifest::{
    declared_duration, parse_transition_kind, transition_named, value_among, value_fits,
    value_fits_kind, ManifestParamField, ManifestParamOption, ManifestParamType, ManifestParamsSchema,
    SlideManifest,
};
use crate::schedule::{PlaylistDefaults, PlaylistEntry};
use crate::text::{concat3, concat4, same_text};
use crate::transition::TransitionKind;

verus! {

/// The JSON type of a value, as parameter errors name it.
#[derive(Debug, Clone, Copy, PartialEq, Eq, Structural)]
pub enum JsonKind {
    Null,
    Boolean,
    Integer,
    Number,
    String,
    Array,
    Object,
}

/// The kind of `v`; an integer is any number written without a fraction or exponent.
pub open spec fn kind_of(v: JsonValue) -> JsonKind {
    match v {
        JsonValue::Null => JsonKind::Null,
        JsonValue::Bool(_) => JsonKind::Boolean,
        JsonValue::Number(JsonNumber::Float(_)) => JsonKind::Number,
        JsonValue::Number(_) => JsonKind::Integer,
        JsonValue::String(_) => JsonKind::String,
        JsonValue::Array(_) => JsonKind::Array,
        JsonValue::Object(_) => JsonKind::Object,
    }
}

/// The name of a kind.
pub open spec fn kind_name(k: JsonKind) -> Seq<char> {
    match k {
        JsonKind::Null => "null"@,
        JsonKind::Boolean => "boolean"@,
        JsonKind::Integer => "integer"@,
        JsonKind::Number => "number"@,
        JsonKind::String => "string"@,
        JsonKind::Array => "array"@,
        JsonKind::Object => "object"@,
    }
}

impl JsonKind {
    /// The kind of `v`.
    pub fn of(v: &JsonValue) -> (r: JsonKind)
        ensures
            r == kind_of(*v),
    {
        match v {
            JsonValue::Null => JsonKind::Null,
            JsonValue::Bool(_) => JsonKind::Boolean,
            JsonValue::Number(JsonNumber::Float(_)) => JsonKind::Number,
            JsonValue::Number(_) => JsonKind::Integer,
            JsonValue::String(_) => JsonKind::String,
            JsonValue::Array(_) => JsonKind::Array,
            JsonValue::Object(_) => JsonKind::Object,
        }
    }

    /// The kind's name.
    pub fn name(self) -> (r: &'static str)
        ensures
            r@ == kind_name(self),
    {
        match self {
            JsonKind::Null => "null",
            JsonKind::Boolean => "boolean",
            JsonKind::Integer => "integer",
            JsonKind::Number => "number",
            JsonKind::String => "string",
            JsonKind::Array => "array",
            JsonKind::Object => "object",
        }
    }
}

/// One way the parameters of an entry break the manifest's schema.
#[derive(Debug, Clone)]
pub enum ParamIssue {
    /// A required field is absent or `null`.
    Missing { key: String },
    /// A supplied value does not have the field's type.
    WrongType { key: String, expected: ManifestParamType, got: JsonKind },
    /// A supplied value is not among the field's options: member `entry` of the parameters
    /// object, checked against field `field` of the schema.
    NotAnOption { key: String, entry: usize, field: usize },
}

/// A parameter issue as a value.
pub enum ParamIssueView {
    Missing(Seq<char>),
    WrongType(Seq<char>, ManifestParamType, JsonKind),
    NotAnOption(Seq<char>, nat, nat),
}

impl View for ParamIssue {
    type V = ParamIssueView;

    open spec fn view(&self) -> ParamIssueView {
        match self {
            ParamIssue::Missing { key } => ParamIssueView::Missing(key@),
            ParamIssue::WrongType { key, expected, got } => ParamIssueView::WrongType(key@, *expected, *got),
            ParamIssue::NotAnOption { key, entry, field } => ParamIssueView::NotAnOption(
                key@,
                *entry as nat,
                *field as nat,
            ),
        }
    }
}

/// The message of a missing or mistyped parameter; an option mismatch needs its values
/// written out as JSON and has none here.
pub open spec fn issue_message(i: ParamIssueView) -> Option<Seq<char>> {
    match i {
        ParamIssueView::Missing(key) => Some("required param '"@ + key + "' is missing"@),
        ParamIssueView::WrongType(key, expected, got) => Some(
            "param '"@ + key + "' expected type '"@ + crate::manifest::param_type_name(expected)
                + "' but got "@ + kind_name(got),
        ),
        ParamIssueView::NotAnOption(..) => None,
    }
}

impl ParamIssue {
    /// The message of a missing or mistyped parameter.
    pub fn message(&self) -> (r: Option<String>)
        ensures
            match r {
                Some(m) => issue_message(self@) == Some(m@),
                None => issue_message(self@) is None,
            },
    {
        match self {
            ParamIssue::Missing { key } => Some(concat3("required param '", key.as_str(), "' is missing")),
            ParamIssue::WrongType { key, expected, got } => {
                let head = concat3("param '", key.as_str(), "' expected type '");
                Some(concat4(head.as_str(), expected.as_str(), "' but got ", got.name()))
            },
            ParamIssue::NotAnOption { .. } => None,
        }
    }
}

/// `items` separated by `, `.
pub open spec fn comma_joined(items: Seq<Seq<char>>) -> Seq<char>
    decreases items.len(),
{
    if items.len() == 0 {
        Seq::empty()
    } else if items.len() == 1 {
        items[0]
    } else {
        comma_joined(items.drop_last()) + ", "@ + items.last()
    }
}

/// The message of a value that is not among its field's options, given the value and the
/// options written out as JSON.
pub open spec fn option_message(key: Seq<char>, value: Seq<char>, allowed: Seq<Seq<char>>) -> Seq<char> {
    "param '"@ + key + "' value "@ + value + " is not one of ["@ + comma_joined(allowed) + "]"@
}

/// The message of a value that is not among its field's options; `value` and `allowed` are
/// the value and the options written out as JSON.
pub fn not_an_option_message(key: &str, value: &str, allowed: &Vec<String>) -> (r: String)
    ensures
        r@ == option_message(key@, value@, allowed@.map_values(|a: String| a@)),
{
    let ghost texts = allowed@.map_values(|a: String| a@);
    let mut joined = String::new();
    let mut i: usize = 0;
    while i < allowed.len()
        invariant
            i <= allowed@.len(),
            texts == allowed@.map_values(|a: String| a@),
            joined@ == comma_joined(texts.take(i as int)),
        decreases allowed@.len() - i,
    {
        assert(texts.take(i + 1).drop_last() == texts.take(i as int));
        if i > 0 {
            joined.append(", ");
        }
        joined.append(allowed[i].as_str());
        proof {
            if i == 0 {
                assert(texts.take(1)[0] == texts[0]);
                assert(joined@ =~= comma_joined(texts.take(1)));
            }
        }
        i += 1;
    }
    assert(texts.take(allowed@.len() as int) == texts);
    let mut r = concat3("param '", key, "' value ");
    r.append(value);
    r.append(" is not one of [");
    r.append(joined.as_str());
    r.append("]");
    r
}

/// The value an option mismatch reports: member `entry` of the parameters object.
pub open spec fn reported_value(issue: ParamIssueView, params: Option<&JsonValue>) -> Option<JsonValue> {
    match (issue, params) {
        (ParamIssueView::NotAnOption(_, entry, _), Some(JsonValue::Object(members))) => if entry
            < members@.len() {
            Some(members@[entry as int].1)
        } else {
            None
        },
        _ => None,
    }
}

/// The options an option mismatch lists: those of field `field` of the schema.
pub open spec fn reported_options(issue: ParamIssueView, schema: Option<&ManifestParamsSchema>) -> Seq<
    JsonValue,
> {
    match (issue, schema) {
        (ParamIssueView::NotAnOption(_, _, field), Some(s)) => if field < s.fields@.len() {
            s.fields@[field as int].options@.map_values(|o: ManifestParamOption| o.value)
        } else {
            Seq::empty()
        },
        _ => Seq::empty(),
    }
}

/// The values an option mismatch writes out as JSON: the offending value, and the options
/// of its field in schema order. A missing or mistyped parameter reports neither.
pub fn option_issue_values(
    issue: &ParamIssue,
    params: Option<&JsonValue>,
    schema: Option<&ManifestParamsSchema>,
) -> (r: (Option<JsonValue>, Vec<JsonValue>))
    ensures
        match reported_value(issue@, params) {
            Some(v) => r.0 matches Some(w) && same_json(v, w),
            None => r.0 is None,
        },
        r.1@.len() == reported_options(issue@, schema).len(),
        forall|i: int|
            0 <= i < r.1@.len() ==> same_json(reported_options(issue@, schema)[i], #[trigger] r.1@[i]),
{
    let mut options: Vec<JsonValue> = Vec::new();
    let (entry, field) = match issue {
        ParamIssue::NotAnOption { entry, field, .. } => (*entry, *field),
        _ => {
            return (None, options);
        },
    };
    let value = match params {
        Some(JsonValue::Object(members)) => if entry < members.len() {
            Some(members[entry].1.clone())
        } else {
            None
        },
        _ => None,
    };
    if let Some(s) = schema {
        if field < s.fields.len() {
            let opts = &s.fields[field].options;
            let mut i: usize = 0;
            while i < opts.len()
                invariant
                    i <= opts@.len(),
                    options@.len() == i,
                    forall|k: int| 0 <= k < i ==> same_json(opts@[k].value, #[trigger] options@[k]),
                decreases opts@.len() - i,
            {
                options.push(opts[i].value.clone());
                i += 1;
            }
        }
    }
    (value, options)
}

/// The position of the first member of `entries` named `key`.
pub open spec fn member_index(entries: Seq<(String, JsonValue)>, key: Seq<char>) -> Option<int>
    decreases entries.len(),
{
    if entries.len() == 0 {
        None
    } else if member_index(entries.drop_last(), key) is Some {
        member_index(entries.drop_last(), key)
    } else if entries.last().0@ == key {
        Some(entries.len() - 1)
    } else {
        None
    }
}

/// The position of the first field of `fields` keyed `key`.
pub open spec fn field_index(fields: Seq<ManifestParamField>, key: Seq<char>) -> Option<int>
    decreases fields.len(),
{
    if fields.len() == 0 {
        None
    } else if field_index(fields.drop_last(), key) is Some {
        field_index(fields.drop_last(), key)
    } else if fields.last().key@ == key {
        Some(fields.len() - 1)
    } else {
        None
    }
}

/// Whether `params` leaves `key` unset: not an object, no such member, or a `null` one.
pub open spec fn unset(params: Option<&JsonValue>, key: Seq<char>) -> bool {
    match params {
        Some(JsonValue::Object(es)) => match member_index(es@, key) {
            Some(i) => es@[i].1 is Null,
            None => true,
        },
        _ => true,
    }
}

/// The missing required fields among `fields`, in schema order.
pub open spec fn required_issues(fields: Seq<ManifestParamField>, params: Option<&JsonValue>) -> Seq<ParamIssueView>
    decreases fields.len(),
{
    if fields.len() == 0 {
        Seq::empty()
    } else {
        let f = fields.last();
        required_issues(fields.drop_last(), params) + if f.required && unset(params, f.key@) {
            seq![ParamIssueView::Missing(f.key@)]
        } else {
            Seq::empty()
        }
    }
}

/// The issue of member `k` of the parameters object, if any: members without a field are
/// allowed; a member must have its field's type and, when the field lists options, be one.
pub open spec fn member_issue(
    entries: Seq<(String, JsonValue)>,
    k: int,
    fields: Seq<ManifestParamField>,
) -> Option<ParamIssueView> {
    let key = entries[k].0@;
    let value = entries[k].1;
    match field_index(fields, key) {
        None => None,
        Some(f) => if !value_fits_kind(value, fields[f].kind) {
            Some(ParamIssueView::WrongType(key, fields[f].kind, kind_of(value)))
        } else if fields[f].options@.len() > 0 && !value_among(fields[f].options@, value) {
            Some(ParamIssueView::NotAnOption(key, k as nat, f as nat))
        } else {
            None
        },
    }
}

/// The issues of the first `n` members of the parameters object, in member order.
pub open spec fn member_issues(entries: Seq<(String, JsonValue)>, fields: Seq<ManifestParamField>, n: nat) -> Seq<ParamIssueView>
    decreases n,
{
    if n == 0 {
        Seq::empty()
    } else {
        member_issues(entries, fields, (n - 1) as nat) + match member_issue(entries, n - 1, fields) {
            Some(i) => seq![i],
            None => Seq::empty(),
        }
    }
}

/// All issues of `params` against `schema`: the missing required fields, then the members
/// that break their field. Without a schema there is nothing to check.
pub open spec fn params_issues(params: Option<&JsonValue>, schema: Option<&ManifestParamsSchema>) -> Seq<ParamIssueView> {
    match schema {
        None => Seq::empty(),
        Some(s) => required_issues(s.fields@, params) + match params {
            Some(JsonValue::Object(es)) => member_issues(es@, s.fields@, es@.len()),
            _ => Seq::empty(),
        },
    }
}

/// The views of a list of issues.
pub open spec fn issue_views(v: Seq<ParamIssue>) -> Seq<ParamIssueView> {
    v.map_values(|i: ParamIssue| i@)
}

/// The position of the first member of `entries` named `key`.
pub(crate) fn find_member(entries: &Vec<(String, JsonValue)>, key: &str) -> (r: Option<usize>)
    ensures
        match r {
            Some(i) => member_index(entries@, key@) == Some(i as int) && i < entries@.len(),
            None => member_index(entries@, key@) is None,
        },
{
    let mut i: usize = 0;
    while i < entries.len()
        invariant
            i <= entries@.len(),
            member_index(entries@.take(i as int), key@) is None,
        decreases entries@.len() - i,
    {
        assert(entries@.take(i + 1).drop_last() == entries@.take(i as int));
        if same_text(entries[i].0.as_str(), key) {
            proof {
                lemma_member_index_extends(entries@, i + 1, key@);
            }
            return Some(i);
        }
        i += 1;
    }
    assert(entries@.take(i as int) == entries@);
    None
}

/// The position of the first field keyed `key`.
fn find_field(fields: &Vec<ManifestParamField>, key: &str) -> (r: Option<usize>)
    ensures
        match r {
            Some(i) => field_index(fields@, key@) == Some(i as int) && i < fields@.len(),
            None => field_index(fields@, key@) is None,
        },
{
    let mut i: usize = 0;
    while i < fields.len()
        invariant
            i <= fields@.len(),
            field_index(fields@.take(i as int), key@) is None,
        decreases fields@.len() - i,
    {
        assert(fields@.take(i + 1).drop_last() == fields@.take(i as int));
        if same_text(fields[i].key.as_str(), key) {
            proof {
                lemma_field_index_extends(fields@, i + 1, key@);
            }
            return Some(i);
        }
        i += 1;
    }
    assert(fields@.take(i as int) == fields@);
    None
}

proof fn lemma_member_index_extends(entries: Seq<(String, JsonValue)>, n: int, key: Seq<char>)
    requires
        0 <= n <= entries.len(),
        member_index(entries.take(n), key) is Some,
    ensures
        member_index(entries, key) == member_index(entries.take(n), key),
    decreases entries.len() - n,
{
    if n < entries.len() {
        assert(entries.drop_last().take(n) == entries.take(n));
        lemma_member_index_extends(entries.drop_last(), n, key);
    } else {
        assert(entries.take(n) == entries);
    }
}

proof fn lemma_field_index_extends(fields: Seq<ManifestParamField>, n: int, key: Seq<char>)
    requires
        0 <= n <= fields.len(),
        field_index(fields.take(n), key) is Some,
    ensures
        field_index(fields, key) == field_index(fields.take(n), key),
    decreases fields.len() - n,
{
    if n < fields.len() {
        assert(fields.drop_last().take(n) == fields.take(n));
        lemma_field_index_extends(fields.drop_last(), n, key);
    } else {
        assert(fields.take(n) == fields);
    }
}

/// Whether `params` leaves `key` unset.
fn is_unset(params: Option<&JsonValue>, key: &str) -> (r: bool)
    ensures
        r == unset(params, key@),
{
    match params {
        Some(JsonValue::Object(es)) => match find_member(es, key) {
            Some(i) => matches!(es[i].1, JsonValue::Null),
            None => true,
        },
        _ => true,
    }
}

/// Whether `v` is among the values of `field`'s options.
fn listed(field: &ManifestParamField, v: &JsonValue) -> (r: bool)
    ensures
        r == value_among(field.options@, *v),
{
    let r = crate::manifest::value_listed(&field.options, field.options.len(), v, true);
    assert(field.options@.take(field.options@.len() as int) == field.options@);
    r
}

/// Checks the parameters of a playlist entry against a manifest's parameter schema, and
/// returns every issue: the missing required fields in schema order, then the members that
/// break their field in member order. An empty list means the parameters are valid, or no
/// schema is available to check against.
pub fn param_issues(params: Option<&JsonValue>, schema: Option<&ManifestParamsSchema>) -> (r: Vec<ParamIssue>)
    ensures
        issue_views(r@) == params_issues(params, schema),
{
    let mut issues: Vec<ParamIssue> = Vec::new();
    let s = match schema {
        None => {
            assert(issue_views(issues@) =~= Seq::<ParamIssueView>::empty());
            return issues;
        },
        Some(s) => s,
    };
    let fields = &s.fields;
    let mut i: usize = 0;
    while i < fields.len()
        invariant
            schema == Some(s),
            fields == &s.fields,
            i <= fields@.len(),
            issue_views(issues@) == required_issues(fields@.take(i as int), params),
        decreases fields@.len() - i,
    {
        let f = &fields[i];
        let ghost before = issues@;
        assert(fields@.take(i + 1).drop_last() == fields@.take(i as int));
        assert(fields@.take(i + 1).last() == *f);
        if f.required && is_unset(params, f.key.as_str()) {
            issues.push(ParamIssue::Missing { key: f.key.clone() });
            assert(issue_views(issues@) =~= issue_views(before) + seq![ParamIssueView::Missing(f.key@)]);
        } else {
            assert(issue_views(issues@) =~= issue_views(before) + Seq::<ParamIssueView>::empty());
        }
        i += 1;
    }
    assert(fields@.take(i as int) == fields@);
    let ghost required = issue_views(issues@);
    if let Some(JsonValue::Object(es)) = params {
        let mut k: usize = 0;
        while k < es.len()
            invariant
                schema == Some(s),
                fields == &s.fields,
                k <= es@.len(),
                issue_views(issues@) == required + member_issues(es@, fields@, k as nat),
            decreases es@.len() - k,
        {
            let ghost before = issues@;
            let key = &es[k].0;
            let value = &es[k].1;
            match find_field(fields, key.as_str()) {
                None => {
                    assert(issue_views(issues@) =~= required + member_issues(es@, fields@, (k + 1) as nat));
                },
                Some(fi) => {
                    let field = &fields[fi];
                    if !value_fits(value, field.kind) {
                        issues.push(
                            ParamIssue::WrongType { key: key.clone(), expected: field.kind, got: JsonKind::of(value) },
                        );
                        assert(issue_views(issues@) =~= issue_views(before) + seq![
                            ParamIssueView::WrongType(key@, field.kind, kind_of(*value)),
                        ]);
                    } else if field.options.len() > 0 && !listed(field, value) {
                        issues.push(ParamIssue::NotAnOption { key: key.clone(), entry: k, field: fi });
                        assert(issue_views(issues@) =~= issue_views(before) + seq![
                            ParamIssueView::NotAnOption(key@, k as nat, fi as nat),
                        ]);
                    } else {
                        assert(issue_views(issues@) =~= required + member_issues(es@, fields@, (k + 1) as nat));
                    }
                },
            }
            k += 1;
        }
    } else {
        assert(issue_views(issues@) =~= required + Seq::<ParamIssueView>::empty());
    }
    issues
}

/// What hydration resolves for an entry.
#[derive(Debug, Clone)]
pub struct EntryResolution {
    /// Effective duration in seconds; `None` means the engine default applies.
    pub duration_seconds: Option<u32>,
    /// Effective transition-in.
    pub transition_in: Option<TransitionKind>,
    /// Effective transition-out.
    pub transition_out: Option<TransitionKind>,
    /// The entry's parameter issues against the manifest's schema.
    pub param_issues: Vec<ParamIssue>,
}

/// The first of three optional names that is present, parsed as a transition kind.
pub open spec fn first_transition(a: Option<String>, b: Option<String>, c: Option<String>) -> Option<TransitionKind> {
    match a {
        Some(s) => Some(transition_named(s@)),
        None => match b {
            Some(s) => Some(transition_named(s@)),
            None => match c {
                Some(s) => Some(transition_named(s@)),
                None => None,
            },
        },
    }
}

/// The effective duration: entry, then playlist defaults, then the manifest.
pub open spec fn resolved_duration(
    entry: PlaylistEntry,
    manifest: Option<&SlideManifest>,
    defaults: PlaylistDefaults,
) -> Option<u32> {
    if entry.duration_seconds is Some {
        entry.duration_seconds
    } else if defaults.duration_seconds is Some {
        defaults.duration_seconds
    } else {
        match manifest {
            Some(m) => declared_duration(*m),
            None => None,
        }
    }
}

/// The manifest's display transition-in name, if any.
pub open spec fn manifest_in(manifest: Option<&SlideManifest>) -> Option<String> {
    match manifest {
        Some(m) => match m.display {
            Some(d) => d.transition_in,
            None => None,
        },
        None => None,
    }
}

/// The manifest's display transition-out name, if any.
pub open spec fn manifest_out(manifest: Option<&SlideManifest>) -> Option<String> {
    match manifest {
        Some(m) => match m.display {
            Some(d) => d.transition_out,
            None => None,
        },
        None => None,
    }
}

/// The manifest's parameter schema, if any.
pub open spec fn manifest_schema(manifest: Option<&SlideManifest>) -> Option<&ManifestParamsSchema> {
    match manifest {
        Some(m) => match &m.params {
            Some(p) => Some(p),
            None => None,
        },
        None => None,
    }
}

/// The first present name of three, parsed.
fn parse_first(a: &Option<String>, b: &Option<String>, c: &Option<String>) -> (r: Option<TransitionKind>)
    ensures
        r == first_transition(*a, *b, *c),
{
    match a {
        Some(s) => Some(parse_transition_kind(s.as_str())),
        None => match b {
            Some(s) => Some(parse_transition_kind(s.as_str())),
            None => match c {
                Some(s) => Some(parse_transition_kind(s.as_str())),
                None => None,
            },
        },
    }
}

/// Resolves a playlist entry against its manifest and the playlist defaults: the effective
/// duration and transitions, and the parameter issues.
pub fn resolve_entry(
    entry: &PlaylistEntry,
    manifest: Option<&SlideManifest>,
    defaults: &PlaylistDefaults,
) -> (r: EntryResolution)
    ensures
        r.duration_seconds == resolved_duration(*entry, manifest, *defaults),
        r.transition_in == first_transition(entry.transition_in, defaults.transition_in, manifest_in(manifest)),
        r.transition_out == first_transition(entry.transition_out, defaults.transition_out, manifest_out(manifest)),
        issue_views(r.param_issues@) == params_issues(
            match &entry.params {
                Some(p) => Some(p),
                None => None,
            },
            manifest_schema(manifest),
        ),
{
    let duration_seconds = if entry.duration_seconds.is_some() {
        entry.duration_seconds
    } else if defaults.duration_seconds.is_some() {
        defaults.duration_seconds
    } else {
        match manifest {
            Some(m) => m.display_duration_seconds(),
            None => None,
        }
    };
    let no_name: Option<String> = None;
    let (m_in, m_out) = match manifest {
        Some(m) => match &m.display {
            Some(d) => (&d.transition_in, &d.transition_out),
            None => (&no_name, &no_name),
        },
        None => (&no_name, &no_name),
    };
    let transition_in = parse_first(&entry.transition_in, &defaults.transition_in, m_in);
    let transition_out = parse_first(&entry.transition_out, &defaults.transition_out, m_out);
    let schema = match manifest {
        Some(m) => match &m.params {
            Some(p) => Some(p),
            None => None,
        },
        None => None,
    };
    let params = match &entry.params {
        Some(p) => Some(p),
        None => None,
    };
    let param_issues = param_issues(params, schema);
    EntryResolution { duration_seconds, transition_in, transition_out, param_issues }
}


/// The order in which a playlist entry's settings are resolved: the entry's own value,
/// then the playlist defaults, then the manifest's display section (then, for the
/// duration, the engine default, which `None` leaves to the engine). A value given earlier
/// wins whatever the later ones say.
pub proof fn entry_resolution_precedence(
    entry: PlaylistEntry,
    manifest: Option<&SlideManifest>,
    defaults: PlaylistDefaults,
)
    ensures
        entry.duration_seconds matches Some(e) ==> resolved_duration(entry, manifest, defaults)
            == Some(e),
        entry.duration_seconds is None ==> (defaults.duration_seconds matches Some(d)
            ==> resolved_duration(entry, manifest, defaults) == Some(d)),
        entry.duration_seconds is None ==> (defaults.duration_seconds is None
            ==> resolved_duration(entry, manifest, defaults) == (match manifest {
            Some(m) => match m.display {
                Some(dc) => dc.duration_seconds,
                None => None,
            },
            None => None,
        })),
        entry.transition_in matches Some(t) ==> first_transition(entry.transition_in, defaults.transition_in, manifest_in(manifest)) == Some(transition_named(t@)),
        entry.transition_in is None ==> (defaults.transition_in matches Some(t) ==> first_transition(entry.transition_in, defaults.transition_in, manifest_in(manifest))
            == Some(transition_named(t@))),
        entry.transition_in is None ==> (defaults.transition_in is None ==> (manifest matches Some(m)
            ==> (m.display matches Some(dc) ==> (dc.transition_in matches Some(t) ==> first_transition(entry.transition_in, defaults.transition_in, manifest_in(manifest))
            == Some(transition_named(t@)))))),
        entry.transition_out matches Some(t) ==> first_transition(entry.transition_out, defaults.transition_out, manifest_out(manifest)) == Some(transition_named(t@)),
        entry.transition_out is None ==> (defaults.transition_out matches Some(t) ==> first_transition(entry.transition_out, defaults.transition_out, manifest_out(manifest))
            == Some(transition_named(t@))),
        entry.transition_out is None ==> (defaults.transition_out is None ==> (manifest matches Some(m)
            ==> (m.display matches Some(dc) ==> (dc.transition_out matches Some(t) ==> first_transition(entry.transition_out, defaults.transition_out, manifest_out(manifest))
            == Some(transition_named(t@)))))),
{
}


/// The missing required fields are exactly those reported missing.
proof fn required_issues_rule(fields: Seq<ManifestParamField>, params: Option<&JsonValue>)
    ensures
        forall|i: int|
            0 <= i < fields.len() && #[trigger] fields[i].required && unset(params, fields[i].key@)
                ==> required_issues(fields, params).contains(ParamIssueView::Missing(fields[i].key@)),
        forall|k: int|
            0 <= k < required_issues(fields, params).len() ==> (#[trigger] required_issues(
                fields,
                params,
            )[k] matches ParamIssueView::Missing(key) && exists|i: int|
                0 <= i < fields.len() && #[trigger] fields[i].key@ == key && fields[i].required
                    && unset(params, key)),
    decreases fields.len(),
{
    if fields.len() > 0 {
        let init = fields.drop_last();
        required_issues_rule(init, params);
        let r = required_issues(fields, params);
        let ri = required_issues(init, params);
        assert forall|i: int|
            0 <= i < fields.len() && #[trigger] fields[i].required && unset(params, fields[i].key@)
                implies r.contains(ParamIssueView::Missing(fields[i].key@)) by {
            if i < fields.len() - 1 {
                assert(init[i] == fields[i]);
                let k = choose|k: int| 0 <= k < ri.len() && ri[k] == ParamIssueView::Missing(init[i].key@);
                assert(r[k] == ri[k]);
            } else {
                assert(r[ri.len() as int] == ParamIssueView::Missing(fields[i].key@));
            }
        }
        assert forall|k: int| 0 <= k < r.len() implies (#[trigger] r[k] matches ParamIssueView::Missing(
            key,
        ) && exists|i: int|
            0 <= i < fields.len() && #[trigger] fields[i].key@ == key && fields[i].required && unset(
                params,
                key,
            )) by {
            if k < ri.len() {
                assert(r[k] == ri[k]);
                let key = ri[k]->Missing_0;
                let i = choose|i: int|
                    0 <= i < init.len() && #[trigger] init[i].key@ == key && init[i].required && unset(
                        params,
                        key,
                    );
                assert(fields[i] == init[i]);
            } else {
                assert(fields[fields.len() - 1] == fields.last());
            }
        }
    }
}

/// A member reported with a mistyped value is reported as such, with its field's kind and
/// the value's kind.
proof fn member_issues_rule(entries: Seq<(String, JsonValue)>, fields: Seq<ManifestParamField>, n: nat)
    requires
        n <= entries.len(),
    ensures
        forall|k: int|
            0 <= k < n && #[trigger] field_index(fields, entries[k].0@) is Some && !value_fits_kind(
                entries[k].1,
                fields[field_index(fields, entries[k].0@)->0].kind,
            ) ==> member_issues(entries, fields, n).contains(
                ParamIssueView::WrongType(
                    entries[k].0@,
                    fields[field_index(fields, entries[k].0@)->0].kind,
                    kind_of(entries[k].1),
                ),
            ),
        forall|k: int|
            0 <= k < n && #[trigger] field_index(fields, entries[k].0@) is Some && value_fits_kind(
                entries[k].1,
                fields[field_index(fields, entries[k].0@)->0].kind,
            ) && fields[field_index(fields, entries[k].0@)->0].options@.len() > 0 && !(exists|o: int|
                0 <= o < fields[field_index(fields, entries[k].0@)->0].options@.len() && json_match(
                    #[trigger] fields[field_index(fields, entries[k].0@)->0].options@[o].value,
                    entries[k].1,
                    true,
                )) ==> member_issues(entries, fields, n).contains(
                ParamIssueView::NotAnOption(entries[k].0@, k as nat, field_index(fields, entries[k].0@)->0 as nat),
            ),
    decreases n,
{
    if n > 0 {
        member_issues_rule(entries, fields, (n - 1) as nat);
        let r = member_issues(entries, fields, n);
        let ri = member_issues(entries, fields, (n - 1) as nat);
        assert forall|k: int|
            0 <= k < n && #[trigger] field_index(fields, entries[k].0@) is Some && !value_fits_kind(
                entries[k].1,
                fields[field_index(fields, entries[k].0@)->0].kind,
            ) implies r.contains(
                ParamIssueView::WrongType(
                    entries[k].0@,
                    fields[field_index(fields, entries[k].0@)->0].kind,
                    kind_of(entries[k].1),
                ),
            ) by {
            let f = field_index(fields, entries[k].0@)->0;
            let want = ParamIssueView::WrongType(entries[k].0@, fields[f].kind, kind_of(entries[k].1));
            if k < n - 1 {
                let j = choose|j: int| 0 <= j < ri.len() && ri[j] == want;
                assert(r[j] == ri[j]);
            } else {
                assert(member_issue(entries, k, fields) == Some(want));
                assert(r[ri.len() as int] == want);
            }
        }
        assert forall|k: int|
            0 <= k < n && #[trigger] field_index(fields, entries[k].0@) is Some && value_fits_kind(
                entries[k].1,
                fields[field_index(fields, entries[k].0@)->0].kind,
            ) && fields[field_index(fields, entries[k].0@)->0].options@.len() > 0 && !(exists|o: int|
                0 <= o < fields[field_index(fields, entries[k].0@)->0].options@.len() && json_match(
                    #[trigger] fields[field_index(fields, entries[k].0@)->0].options@[o].value,
                    entries[k].1,
                    true,
                )) implies r.contains(
                ParamIssueView::NotAnOption(entries[k].0@, k as nat, field_index(fields, entries[k].0@)->0 as nat),
            ) by {
            let f = field_index(fields, entries[k].0@)->0;
            let want = ParamIssueView::NotAnOption(entries[k].0@, k as nat, f as nat);
            if k < n - 1 {
                let j = choose|j: int| 0 <= j < ri.len() && ri[j] == want;
                assert(r[j] == ri[j]);
            } else {
                assert(!value_among(fields[f].options@, entries[k].1));
                assert(member_issue(entries, k, fields) == Some(want));
                assert(r[ri.len() as int] == want);
            }
        }
    }
}

/// Checking parameters against a schema: without a schema nothing is reported; every
/// required field that the parameters leave unset (absent or `null`) is reported missing,
/// and only such fields are; a member whose field declares a kind its value does not have
/// is reported as mistyped, with both kinds; and a member of the right kind whose field lists
/// options, none equal to its value, is reported as not an option.
pub proof fn param_check_rule(params: Option<&JsonValue>, schema: Option<&ManifestParamsSchema>)
    ensures
        schema is None ==> params_issues(params, schema) == Seq::<ParamIssueView>::empty(),
        schema matches Some(s) ==> forall|i: int|
            0 <= i < s.fields@.len() && #[trigger] s.fields@[i].required && unset(params, s.fields@[i].key@)
                ==> params_issues(params, schema).contains(ParamIssueView::Missing(s.fields@[i].key@)),
        schema matches Some(s) ==> forall|k: int|
            0 <= k < params_issues(params, schema).len() && #[trigger] params_issues(params, schema)[k] is Missing
                ==> exists|i: int|
                0 <= i < s.fields@.len() && #[trigger] s.fields@[i].key@ == params_issues(params, schema)[k]->Missing_0
                    && s.fields@[i].required && unset(params, s.fields@[i].key@),
        schema matches Some(s) ==> (params matches Some(JsonValue::Object(es)) ==> forall|k: int|
            0 <= k < es@.len() && #[trigger] field_index(s.fields@, es@[k].0@) is Some
                && !value_fits_kind(es@[k].1, s.fields@[field_index(s.fields@, es@[k].0@)->0].kind) ==> params_issues(params, schema).contains(
                ParamIssueView::WrongType(es@[k].0@, s.fields@[field_index(s.fields@, es@[k].0@)->0].kind, kind_of(es@[k].1)),
            )),
        schema matches Some(s) ==> (params matches Some(JsonValue::Object(es)) ==> forall|k: int|
            0 <= k < es@.len() && #[trigger] field_index(s.fields@, es@[k].0@) is Some && value_fits_kind(
                es@[k].1,
                s.fields@[field_index(s.fields@, es@[k].0@)->0].kind,
            ) && s.fields@[field_index(s.fields@, es@[k].0@)->0].options@.len() > 0 && !(exists|o: int|
                0 <= o < s.fields@[field_index(s.fields@, es@[k].0@)->0].options@.len() && json_match(
                    #[trigger] s.fields@[field_index(s.fields@, es@[k].0@)->0].options@[o].value,
                    es@[k].1,
                    true,
                )) ==> params_issues(params, schema).contains(
                ParamIssueView::NotAnOption(es@[k].0@, k as nat, field_index(s.fields@, es@[k].0@)->0 as nat),
            )),
{
    if let Some(s) = schema {
        required_issues_rule(s.fields@, params);
        let req = required_issues(s.fields@, params);
        let mem = match params {
            Some(JsonValue::Object(es)) => member_issues(es@, s.fields@, es@.len()),
            _ => Seq::empty(),
        };
        let all = params_issues(params, schema);
        assert(all == req + mem);
        assert forall|i: int|
            0 <= i < s.fields@.len() && #[trigger] s.fields@[i].required && unset(params, s.fields@[i].key@)
                implies all.contains(ParamIssueView::Missing(s.fields@[i].key@)) by {
            let k = choose|k: int| 0 <= k < req.len() && req[k] == ParamIssueView::Missing(s.fields@[i].key@);
            assert(all[k] == req[k]);
        }
        assert forall|k: int| 0 <= k < all.len() && #[trigger] all[k] is Missing implies exists|i: int|
            0 <= i < s.fields@.len() && #[trigger] s.fields@[i].key@ == all[k]->Missing_0
                && s.fields@[i].required && unset(params, s.fields@[i].key@) by {
            if k < req.len() {
                assert(all[k] == req[k]);
            } else {
                assert(all[k] == mem[k - req.len()]);
                if let Some(JsonValue::Object(es)) = params {
                    member_issues_not_missing(es@, s.fields@, es@.len());
                }
            }
        }
        if let Some(JsonValue::Object(es)) = params {
            member_issues_rule(es@, s.fields@, es@.len());
            assert forall|k: int|
                0 <= k < es@.len() && #[trigger] field_index(s.fields@, es@[k].0@) is Some
                    && !value_fits_kind(es@[k].1, s.fields@[field_index(s.fields@, es@[k].0@)->0].kind) implies all.contains(
                    ParamIssueView::WrongType(es@[k].0@, s.fields@[field_index(s.fields@, es@[k].0@)->0].kind, kind_of(es@[k].1)),
                ) by {
                let f = field_index(s.fields@, es@[k].0@)->0;
                let want = ParamIssueView::WrongType(es@[k].0@, s.fields@[field_index(s.fields@, es@[k].0@)->0].kind, kind_of(es@[k].1));
                let j = choose|j: int| 0 <= j < mem.len() && mem[j] == want;
                assert(all[req.len() + j] == mem[j]);
            }
            assert forall|k: int|
                0 <= k < es@.len() && #[trigger] field_index(s.fields@, es@[k].0@) is Some && value_fits_kind(
                    es@[k].1,
                    s.fields@[field_index(s.fields@, es@[k].0@)->0].kind,
                ) && s.fields@[field_index(s.fields@, es@[k].0@)->0].options@.len() > 0 && !(exists|o: int|
                    0 <= o < s.fields@[field_index(s.fields@, es@[k].0@)->0].options@.len() && json_match(
                        #[trigger] s.fields@[field_index(s.fields@, es@[k].0@)->0].options@[o].value,
                        es@[k].1,
                        true,
                    )) implies all.contains(
                    ParamIssueView::NotAnOption(es@[k].0@, k as nat, field_index(s.fields@, es@[k].0@)->0 as nat),
                ) by {
                let want = ParamIssueView::NotAnOption(es@[k].0@, k as nat, field_index(s.fields@, es@[k].0@)->0 as nat);
                let j = choose|j: int| 0 <= j < mem.len() && mem[j] == want;
                assert(all[req.len() + j] == mem[j]);
            }
        }
    }
}

/// Member issues are never reports of missing fields.
proof fn member_issues_not_missing(entries: Seq<(String, JsonValue)>, fields: Seq<ManifestParamField>, n: nat)
    ensures
        forall|k: int| 0 <= k < member_issues(entries, fields, n).len() ==> !(#[trigger] member_issues(
            entries,
            fields,
            n,
        )[k] is Missing),
    decreases n,
{
    if n > 0 {
        member_issues_not_missing(entries, fields, (n - 1) as nat);
        let r = member_issues(entries, fields, n);
        let ri = member_issues(entries, fields, (n - 1) as nat);
        assert forall|k: int| 0 <= k < r.len() implies !(#[trigger] r[k] is Missing) by {
            if k < ri.len() {
                assert(r[k] == ri[k]);
            }
        }
    }
}


/// A member is found by name at its first occurrence: `member_index` gives the position of
/// the first member named `key`, and nothing when no member has that name (field lookup by
/// key works the same way).
pub proof fn member_lookup_rule(entries: Seq<(String, JsonValue)>, key: Seq<char>)
    ensures
        member_index(entries, key) matches Some(i) ==> 0 <= i < entries.len() && entries[i].0@ == key
            && forall|j: int| 0 <= j < i ==> (#[trigger] entries[j]).0@ != key,
        member_index(entries, key) is None <==> forall|j: int| 0 <= j < entries.len() ==> (#[trigger] entries[j]).0@
            != key,
    decreases entries.len(),
{
    if entries.len() > 0 {
        let init = entries.drop_last();
        member_lookup_rule(init, key);
        assert forall|j: int| 0 <= j < init.len() implies #[trigger] init[j] == entries[j] by {}
        if member_index(init, key) is Some {
            let i = member_index(init, key)->0;
            assert(entries[i] == init[i]);
            assert forall|j: int| 0 <= j < i implies (#[trigger] entries[j]).0@ != key by {
                assert(init[j] == entries[j]);
            }
        }
        if member_index(init, key) is None {
            assert forall|j: int| 0 <= j < init.len() implies (#[trigger] entries[j]).0@ != key by {
                assert(init[j] == entries[j]);
            }
        }
        if member_index(init, key) is None && entries.last().0@ != key {
            assert forall|j: int| 0 <= j < entries.len() implies (#[trigger] entries[j]).0@ != key by {
                if j < init.len() {
                    assert(init[j] == entries[j]);
                }
            }
        }
        if member_index(entries, key) is None {
            assert(entries[entries.len() - 1].0@ != key);
        }
    }
}

/// The same rule for a schema's fields: `field_index` gives the first field keyed `key`.
pub proof fn field_lookup_rule(fields: Seq<ManifestParamField>, key: Seq<char>)
    ensures
        field_index(fields, key) matches Some(i) ==> 0 <= i < fields.len() && fields[i].key@ == key
            && forall|j: int| 0 <= j < i ==> (#[trigger] fields[j]).key@ != key,
        field_index(fields, key) is None <==> forall|j: int| 0 <= j < fields.len() ==> (#[trigger] fields[j]).key@
            != key,
    decreases fields.len(),
{
    if fields.len() > 0 {
        let init = fields.drop_last();
        field_lookup_rule(init, key);
        assert forall|j: int| 0 <= j < init.len() implies #[trigger] init[j] == fields[j] by {}
        if field_index(init, key) is Some {
            let i = field_index(init, key)->0;
            assert(fields[i] == init[i]);
            assert forall|j: int| 0 <= j < i implies (#[trigger] fields[j]).key@ != key by {
                assert(init[j] == fields[j]);
            }
        }
        if field_index(init, key) is None {
            assert forall|j: int| 0 <= j < init.len() implies (#[trigger] fields[j]).key@ != key by {
                assert(init[j] == fields[j]);
            }
        }
        if field_index(init, key) is None && fields.last().key@ != key {
            assert forall|j: int| 0 <= j < fields.len() implies (#[trigger] fields[j]).key@ != key by {
                if j < init.len() {
                    assert(init[j] == fields[j]);
                }
            }
        }
        if field_index(fields, key) is None {
            assert(fields[fields.len() - 1].key@ != key);
        }
    }
}

/// A parameter counts as set when the parameters are an object whose first member named
/// `key` holds a value other than `null`.
pub proof fn unset_rule(params: Option<&JsonValue>, key: Seq<char>)
    ensures
        (params matches Some(JsonValue::Object(es)) && exists|j: int|
            0 <= j < es@.len() && (#[trigger] es@[j]).0@ == key && !(es@[j].1 is Null) && forall|
                m: int,
            |
                0 <= m < j ==> (#[trigger] es@[m]).0@ != key) ==> !unset(params, key),
{
    if let Some(JsonValue::Object(es)) = params {
        member_lookup_rule(es@, key);
        if exists|j: int|
            0 <= j < es@.len() && (#[trigger] es@[j]).0@ == key && !(es@[j].1 is Null) && forall|m: int|
                0 <= m < j ==> (#[trigger] es@[m]).0@ != key {
            let j = choose|j: int|
                0 <= j < es@.len() && (#[trigger] es@[j]).0@ == key && !(es@[j].1 is Null) && forall|m: int|
                    0 <= m < j ==> (#[trigger] es@[m]).0@ != key;
            let i = member_index(es@, key)->0;
            assert(es@[j].0@ == key);
            if i < j {
                assert(es@[i].0@ != key);
            } else if j < i {
                assert(es@[j].0@ != key);
            }
        }
    }
}

} // verus!
