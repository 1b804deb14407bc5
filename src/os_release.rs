//! Projection of a metadata document onto the flat os-release format, and the
//! text form of an os-release record.
use vstd::prelude::*;

use crate::document::{OSInfo, SecurityContact, Website, WebsiteScope};
use crate::label_map::{
    has_label, label_lt, lemma_insert_greatest, lemma_label_lt_irreflexive,
    lemma_label_lt_transitive, sorted_labels, LabelMap,
};

verus! {

// ---------------------------------------------------------------------------
// Quoting
// ---------------------------------------------------------------------------

/// `s` with each double quote preceded by a backslash; nothing else changes.
pub open spec fn escaped(s: Seq<char>) -> Seq<char>
    decreases s.len(),
{
    if s.len() == 0 {
        Seq::empty()
    } else if s.last() == '"' {
        escaped(s.drop_last()) + seq!['\\', '"']
    } else {
        escaped(s.drop_last()).push(s.last())
    }
}

/// `s` escaped and wrapped in double quotes.
pub open spec fn quoted(s: Seq<char>) -> Seq<char> {
    seq!['"'] + escaped(s) + seq!['"']
}

/// Reads an escaped text back: each backslash-quote pair becomes a quote.
pub open spec fn unescaped(t: Seq<char>) -> Seq<char>
    decreases t.len(),
{
    if t.len() == 0 {
        Seq::empty()
    } else if t.len() >= 2 && t.last() == '"' && t[t.len() - 2] == '\\' {
        unescaped(t.take(t.len() - 2)).push('"')
    } else {
        unescaped(t.drop_last()).push(t.last())
    }
}

/// Escaping loses nothing: reading the escaped text back gives the original.
pub proof fn lemma_escape_round_trip(s: Seq<char>)
    ensures
        unescaped(escaped(s)) == s,
    decreases s.len(),
{
    if s.len() > 0 {
        let p = s.drop_last();
        lemma_escape_round_trip(p);
        let e = escaped(s);
        if s.last() == '"' {
            assert(e.take(e.len() - 2) =~= escaped(p));
        } else {
            assert(e.drop_last() =~= escaped(p));
        }
        assert(s =~= p.push(s.last()));
    }
}

/// Wraps `s` in double quotes, escaping each double quote inside it with a
/// backslash.
pub fn shell_escape(s: &str) -> (r: String)
    ensures
        r@ == quoted(s@),
{
    proof {
        reveal_strlit("\"");
        reveal_strlit("\\\"");
    }
    let n = s.unicode_len();
    let mut out = String::from_str("\"");
    let mut i: usize = 0;
    while i < n
        invariant
            n == s@.len(),
            i <= n,
            out@ == seq!['"'] + escaped(s@.take(i as int)),
        decreases n - i,
    {
        let c = s.get_char(i);
        let ghost before = out@;
        if c == '"' {
            out.append("\\\"");
        } else {
            out.append(s.substring_char(i, i + 1));
        }
        proof {
            let t = s@.take(i + 1);
            assert(t.drop_last() =~= s@.take(i as int));
            assert(t.last() == c);
            if c == '"' {
                reveal_strlit("\\\"");
                assert("\\\""@.len() == 2);
                assert("\\\""@[0] == '\\');
                assert("\\\""@ =~= seq!['\\', '"']);
                assert(escaped(t) == escaped(s@.take(i as int)) + seq!['\\', '"']);
                assert(out@ =~= seq!['"'] + escaped(t));
            } else {
                assert(s@.subrange(i as int, i + 1) =~= seq![c]);
                assert(out@ =~= seq!['"'] + escaped(t));
            }
        }
        i = i + 1;
    }
    out.append("\"");
    assert(s@.take(n as int) =~= s@);
    assert(out@ =~= quoted(s@));
    out
}

// ---------------------------------------------------------------------------
// The record
// ---------------------------------------------------------------------------

/// Represents a parsed os-release file with strongly typed standard fields
#[derive(Debug, Clone, PartialEq, Eq)]
pub struct OsRelease {
    /// The name of the operating system
    pub name: String,
    /// The lower case string identifying the operating system
    pub id: String,
    /// The version ID string for the operating system
    pub version_id: String,
    /// The pretty operating system version string
    pub version: String,
    /// The pretty operating system name, quoted if it contains spaces
    pub pretty_name: String,
    /// Space-separated list of operating system identifiers that this OS is based on
    pub id_like: Option<String>,
    /// Home website URL
    pub home_url: Option<String>,
    /// Documentation URL
    pub documentation_url: Option<String>,
    /// Support URL
    pub support_url: Option<String>,
    /// Bug reporting URL
    pub bug_report_url: Option<String>,
    /// Additional non-standard fields, kept in ascending key order
    pub extra_fields: LabelMap<String>,
}

/// The value of an os-release record.
pub struct OsReleaseView {
    pub name: Seq<char>,
    pub id: Seq<char>,
    pub version_id: Seq<char>,
    pub version: Seq<char>,
    pub pretty_name: Seq<char>,
    pub id_like: Option<Seq<char>>,
    pub home_url: Option<Seq<char>>,
    pub documentation_url: Option<Seq<char>>,
    pub support_url: Option<Seq<char>>,
    pub bug_report_url: Option<Seq<char>>,
    /// Extra fields as (key, value) pairs, in ascending key order
    pub extra_fields: Seq<(Seq<char>, Seq<char>)>,
}

/// The text of an optional string.
pub open spec fn opt_view(o: Option<String>) -> Option<Seq<char>> {
    match o {
        Some(s) => Some(s@),
        None => None,
    }
}

/// The extra fields of a record as (key, text) pairs.
pub open spec fn extra_view(e: Seq<(Seq<char>, String)>) -> Seq<(Seq<char>, Seq<char>)> {
    e.map_values(|p: (Seq<char>, String)| (p.0, p.1@))
}

impl View for OsRelease {
    type V = OsReleaseView;

    open spec fn view(&self) -> OsReleaseView {
        OsReleaseView {
            name: self.name@,
            id: self.id@,
            version_id: self.version_id@,
            version: self.version@,
            pretty_name: self.pretty_name@,
            id_like: opt_view(self.id_like),
            home_url: opt_view(self.home_url),
            documentation_url: opt_view(self.documentation_url),
            support_url: opt_view(self.support_url),
            bug_report_url: opt_view(self.bug_report_url),
            extra_fields: extra_view(self.extra_fields@),
        }
    }
}

// ---------------------------------------------------------------------------
// Text form
// ---------------------------------------------------------------------------

/// One `KEY="value"` line.
pub open spec fn line(key: Seq<char>, value: Seq<char>) -> Seq<char> {
    key + seq!['='] + quoted(value) + seq!['\n']
}

/// A line for an optional field: none when the field is absent.
pub open spec fn opt_line(key: Seq<char>, value: Option<Seq<char>>) -> Seq<char> {
    match value {
        Some(v) => line(key, v),
        None => Seq::empty(),
    }
}

/// The lines of the five required fields, in their fixed order.
pub open spec fn required_lines(r: OsReleaseView) -> Seq<char> {
    line("NAME"@, r.name) + line("ID"@, r.id) + line("VERSION_ID"@, r.version_id) + line(
        "VERSION"@,
        r.version,
    ) + line("PRETTY_NAME"@, r.pretty_name)
}

/// The lines of the optional fields that are present, in their fixed order.
pub open spec fn optional_lines(r: OsReleaseView) -> Seq<char> {
    opt_line("ID_LIKE"@, r.id_like) + opt_line("HOME_URL"@, r.home_url) + opt_line(
        "DOCUMENTATION_URL"@,
        r.documentation_url,
    ) + opt_line("SUPPORT_URL"@, r.support_url) + opt_line("BUG_REPORT_URL"@, r.bug_report_url)
}

/// One line per extra field, in the order given.
pub open spec fn extra_lines(e: Seq<(Seq<char>, Seq<char>)>) -> Seq<char>
    decreases e.len(),
{
    if e.len() == 0 {
        Seq::empty()
    } else {
        extra_lines(e.drop_last()) + line(e.last().0, e.last().1)
    }
}

/// The os-release text of a record.
pub open spec fn rendered(r: OsReleaseView) -> Seq<char> {
    required_lines(r) + optional_lines(r) + extra_lines(r.extra_fields)
}

/// Appends the line `key="value"` to `out`.
fn push_line(out: &mut String, key: &str, value: &str)
    ensures
        final(out)@ == old(out)@ + line(key@, value@),
{
    proof {
        reveal_strlit("=");
        reveal_strlit("\n");
    }
    out.append(key);
    out.append("=");
    let q = shell_escape(value);
    out.append(q.as_str());
    out.append("\n");
    assert(final(out)@ =~= old(out)@ + line(key@, value@));
}

/// Appends the line of an optional field to `out`, if the field is present.
fn push_opt_line(out: &mut String, key: &str, value: &Option<String>)
    ensures
        final(out)@ == old(out)@ + opt_line(key@, opt_view(*value)),
{
    match value {
        Some(v) => push_line(out, key, v.as_str()),
        None => {
            assert(old(out)@ + Seq::<char>::empty() =~= old(out)@);
        },
    }
}

impl OsRelease {
    /// Creates a record with the five required fields, no optional fields and
    /// no extra fields.
    pub fn new(
        name: String,
        id: String,
        version_id: String,
        version: String,
        pretty_name: String,
    ) -> (r: Self)
        ensures
            r@ == (OsReleaseView {
                name: name@,
                id: id@,
                version_id: version_id@,
                version: version@,
                pretty_name: pretty_name@,
                id_like: None,
                home_url: None,
                documentation_url: None,
                support_url: None,
                bug_report_url: None,
                extra_fields: Seq::empty(),
            }),
    {
        let r = Self {
            name,
            id,
            version_id,
            version,
            pretty_name,
            id_like: None,
            home_url: None,
            documentation_url: None,
            support_url: None,
            bug_report_url: None,
            extra_fields: LabelMap::new(),
        };
        assert(r@.extra_fields =~= Seq::empty());
        r
    }

    /// The os-release text: the required fields, then the optional fields that
    /// are present, then the extra fields in ascending key order, one
    /// `KEY="value"` line each.
    pub fn to_string(&self) -> (s: String)
        ensures
            s@ == rendered(self@),
            sorted_labels(self@.extra_fields),
    {
        let mut out = String::new();
        push_line(&mut out, "NAME", self.name.as_str());
        push_line(&mut out, "ID", self.id.as_str());
        push_line(&mut out, "VERSION_ID", self.version_id.as_str());
        push_line(&mut out, "VERSION", self.version.as_str());
        push_line(&mut out, "PRETTY_NAME", self.pretty_name.as_str());
        assert(out@ =~= required_lines(self@));
        push_opt_line(&mut out, "ID_LIKE", &self.id_like);
        push_opt_line(&mut out, "HOME_URL", &self.home_url);
        push_opt_line(&mut out, "DOCUMENTATION_URL", &self.documentation_url);
        push_opt_line(&mut out, "SUPPORT_URL", &self.support_url);
        push_opt_line(&mut out, "BUG_REPORT_URL", &self.bug_report_url);
        assert(out@ =~= required_lines(self@) + optional_lines(self@));
        let ghost head = out@;
        let entries = self.extra_fields.entries();
        let ghost e = self@.extra_fields;
        let n = entries.len();
        let mut i: usize = 0;
        assert(e.take(0) =~= Seq::<(Seq<char>, Seq<char>)>::empty());
        while i < n
            invariant
                n == e.len(),
                e == extra_view(entries@.map_values(|p: (String, String)| (p.0@, p.1))),
                i <= n,
                out@ == head + extra_lines(e.take(i as int)),
            decreases n - i,
        {
            let entry = &entries[i];
            push_line(&mut out, entry.0.as_str(), entry.1.as_str());
            proof {
                let t = e.take(i + 1);
                assert(t.drop_last() =~= e.take(i as int));
                assert(t.last() == (entry.0@, entry.1@));
                assert(out@ =~= head + extra_lines(t));
            }
            i = i + 1;
        }
        assert(e.take(n as int) =~= e);
        proof {
            use_type_invariant(&self.extra_fields);
            assert forall|a: int, b: int|
                0 <= a < b < e.len() implies label_lt(
                #[trigger] e[a].0,
                #[trigger] e[b].0,
            ) by {
                assert(e[a].0 == self.extra_fields@[a].0);
                assert(e[b].0 == self.extra_fields@[b].0);
            }
        }
        out
    }
}

// ---------------------------------------------------------------------------
// Projection
// ---------------------------------------------------------------------------

/// URL of the first website, in label order, with the given scope.
pub open spec fn first_scope_url(s: Seq<(Seq<char>, Website)>, scope: WebsiteScope) -> Option<
    Seq<char>,
>
    decreases s.len(),
{
    if s.len() == 0 {
        None
    } else if s[0].1.scope == scope {
        Some(s[0].1.url@)
    } else {
        first_scope_url(s.drop_first(), scope)
    }
}

/// URL of the last website, in label order, with the given scope.
pub open spec fn last_scope_url(s: Seq<(Seq<char>, Website)>, scope: WebsiteScope) -> Option<
    Seq<char>,
>
    decreases s.len(),
{
    if s.len() == 0 {
        None
    } else if s.last().1.scope == scope {
        Some(s.last().1.url@)
    } else {
        last_scope_url(s.drop_last(), scope)
    }
}

/// URL of the website labelled `label`, if there is one.
pub open spec fn labelled_url(s: Seq<(Seq<char>, Website)>, label: Seq<char>) -> Option<Seq<char>>
    decreases s.len(),
{
    if s.len() == 0 {
        None
    } else if s[0].0 == label {
        Some(s[0].1.url@)
    } else {
        labelled_url(s.drop_first(), label)
    }
}

/// Two-tier resolution: the website labelled `label` wins whatever its
/// scope; without one, the first website with `scope` in label order.
pub open spec fn resolved_url(s: Seq<(Seq<char>, Website)>, label: Seq<char>, scope: WebsiteScope) -> Option<Seq<char>> {
    match labelled_url(s, label) {
        Some(url) => Some(url),
        None => first_scope_url(s, scope),
    }
}

/// The labelled website is found at index `i` when no earlier website has
/// that label.
pub proof fn lemma_labelled_url_at(s: Seq<(Seq<char>, Website)>, label: Seq<char>, i: int)
    requires
        0 <= i < s.len(),
        s[i].0 == label,
        forall|k: int| 0 <= k < i ==> #[trigger] s[k].0 != label,
    ensures
        labelled_url(s, label) == Some(s[i].1.url@),
    decreases i,
{
    if i > 0 {
        assert(s[0].0 != label);
        let t = s.drop_first();
        assert forall|k: int| 0 <= k < i - 1 implies #[trigger] t[k].0 != label by {
            assert(t[k] == s[k + 1]);
        }
        lemma_labelled_url_at(t, label, i - 1);
    }
}

/// Without the label, the label finds nothing.
pub proof fn lemma_labelled_url_none(s: Seq<(Seq<char>, Website)>, label: Seq<char>)
    requires
        !has_label(s, label),
    ensures
        labelled_url(s, label) is None,
    decreases s.len(),
{
    if s.len() > 0 {
        assert(s[0].0 != label);
        let t = s.drop_first();
        assert forall|k: int| 0 <= k < t.len() implies #[trigger] t[k].0 != label by {
            assert(t[k] == s[k + 1]);
        }
        lemma_labelled_url_none(t, label);
    }
}

/// The security contact's email, when there is a non-empty one.
pub open spec fn contact_email(c: Option<SecurityContact>) -> Option<Seq<char>> {
    match c {
        Some(c) => match c.email {
            Some(e) => if e@.len() > 0 {
                Some(e@)
            } else {
                None
            },
            None => None,
        },
        None => None,
    }
}

/// A one-entry list for a present value; empty for an absent one.
pub open spec fn extra_entry(key: Seq<char>, value: Option<Seq<char>>) -> Seq<(Seq<char>, Seq<char>)> {
    match value {
        Some(v) => seq![(key, v)],
        None => Seq::empty(),
    }
}

/// The extra fields a document contributes, in ascending key order: the
/// policy URLs (the last website of each policy scope, in label order) and
/// the security contact's email.
pub open spec fn projected_extras(d: OSInfo) -> Seq<(Seq<char>, Seq<char>)> {
    let s = d.resources.websites@;
    extra_entry("PRIVACY_POLICY_URL"@, last_scope_url(s, WebsiteScope::PrivacyPolicy))
        + extra_entry("SECURITY_CONTACT"@, contact_email(d.security_contact))
        + extra_entry("SECURITY_POLICY_URL"@, last_scope_url(s, WebsiteScope::SecurityPolicy))
        + extra_entry("TERMS_OF_SERVICE_URL"@, last_scope_url(s, WebsiteScope::TermsOfService))
}

/// The os-release record of a document.
pub open spec fn projection(d: OSInfo) -> OsReleaseView {
    let s = d.resources.websites@;
    OsReleaseView {
        name: d.metadata.identity.name@,
        id: d.metadata.identity.id@,
        version_id: d.metadata.version.short@,
        version: d.metadata.version.full@,
        pretty_name: d.metadata.identity.display@,
        id_like: opt_view(d.metadata.identity.id_like),
        home_url: resolved_url(s, "homepage"@, WebsiteScope::Public),
        documentation_url: resolved_url(s, "documentation"@, WebsiteScope::EndUserDocs),
        support_url: resolved_url(s, "support"@, WebsiteScope::EndUserDocs),
        bug_report_url: resolved_url(s, "bugs"@, WebsiteScope::DeveloperDocs),
        extra_fields: projected_extras(d),
    }
}

/// `a` sorts before `b` when they agree on the first `n` characters and
/// differ at the next.
proof fn lemma_label_lt_at(a: Seq<char>, b: Seq<char>, n: int)
    requires
        0 <= n < a.len(),
        n < b.len(),
        a.take(n) == b.take(n),
        (a[n] as int) < (b[n] as int),
    ensures
        label_lt(a, b),
    decreases n,
{
    if n > 0 {
        assert(a[0] == a.take(n)[0]);
        assert(b[0] == b.take(n)[0]);
        assert(a.drop_first().take(n - 1) =~= a.take(n).drop_first());
        assert(b.drop_first().take(n - 1) =~= b.take(n).drop_first());
        lemma_label_lt_at(a.drop_first(), b.drop_first(), n - 1);
    }
}

/// The keys of the projected extra fields ascend in the order they are added.
proof fn lemma_extra_keys_ascend()
    ensures
        label_lt("PRIVACY_POLICY_URL"@, "SECURITY_CONTACT"@),
        label_lt("SECURITY_CONTACT"@, "SECURITY_POLICY_URL"@),
        label_lt("SECURITY_POLICY_URL"@, "TERMS_OF_SERVICE_URL"@),
{
    reveal_strlit("PRIVACY_POLICY_URL");
    reveal_strlit("SECURITY_CONTACT");
    reveal_strlit("SECURITY_POLICY_URL");
    reveal_strlit("TERMS_OF_SERVICE_URL");
    let p = "PRIVACY_POLICY_URL"@;
    let c = "SECURITY_CONTACT"@;
    let sp = "SECURITY_POLICY_URL"@;
    let t = "TERMS_OF_SERVICE_URL"@;
    assert(p.take(0) =~= c.take(0));
    assert(p[0] == 'P' && c[0] == 'S');
    lemma_label_lt_at(p, c, 0);
    assert(c.take(9) =~= sp.take(9));
    assert(c[9] == 'C' && sp[9] == 'P');
    lemma_label_lt_at(c, sp, 9);
    assert(sp.take(0) =~= t.take(0));
    assert(sp[0] == 'S' && t[0] == 'T');
    lemma_label_lt_at(sp, t, 0);
}

/// Every label of `s` is at most `k1`, and `k1` sorts before `k2`: every label
/// of `s` sorts before `k2`.
proof fn lemma_labels_below<V>(s: Seq<(Seq<char>, V)>, k1: Seq<char>, k2: Seq<char>)
    requires
        forall|j: int| 0 <= j < s.len() ==> #[trigger] s[j].0 == k1 || label_lt(s[j].0, k1),
        label_lt(k1, k2),
    ensures
        forall|j: int| 0 <= j < s.len() ==> label_lt(#[trigger] s[j].0, k2),
{
    assert forall|j: int| 0 <= j < s.len() implies label_lt(#[trigger] s[j].0, k2) by {
        if s[j].0 != k1 {
            lemma_label_lt_transitive(s[j].0, k1, k2);
        }
    }
}

/// The URL of the first website with the given scope, in label order.
fn first_url_with_scope(sites: &LabelMap<Website>, scope: WebsiteScope) -> (r: Option<String>)
    ensures
        opt_view(r) == first_scope_url(sites@, scope),
{
    let entries = sites.entries();
    let ghost s = sites@;
    let n = entries.len();
    let mut i: usize = 0;
    assert(s.skip(0) =~= s);
    while i < n
        invariant
            s == sites@,
            s == entries@.map_values(|e: (String, Website)| (e.0@, e.1)),
            n == s.len(),
            i <= n,
            first_scope_url(s, scope) == first_scope_url(s.skip(i as int), scope),
        decreases n - i,
    {
        let site = &entries[i].1;
        assert(s[i as int] == (entries@[i as int].0@, entries@[i as int].1));
        assert(s.skip(i as int)[0] == s[i as int]);
        if site.scope == scope {
            return Some(site.url.clone());
        }
        assert(s.skip(i as int).drop_first() =~= s.skip(i + 1));
        i = i + 1;
    }
    assert(s.skip(n as int) =~= Seq::<(Seq<char>, Website)>::empty());
    None
}

/// The URL of the last website with the given scope, in label order.
fn last_url_with_scope(sites: &LabelMap<Website>, scope: WebsiteScope) -> (r: Option<String>)
    ensures
        opt_view(r) == last_scope_url(sites@, scope),
{
    let entries = sites.entries();
    let ghost s = sites@;
    let mut i: usize = entries.len();
    assert(s.take(i as int) =~= s);
    while i > 0
        invariant
            s == sites@,
            s == entries@.map_values(|e: (String, Website)| (e.0@, e.1)),
            i <= s.len(),
            last_scope_url(s, scope) == last_scope_url(s.take(i as int), scope),
        decreases i,
    {
        let site = &entries[i - 1].1;
        assert(s[i - 1] == (entries@[i - 1].0@, entries@[i - 1].1));
        assert(s.take(i as int).last() == s[i - 1]);
        if site.scope == scope {
            return Some(site.url.clone());
        }
        assert(s.take(i as int).drop_last() =~= s.take(i - 1));
        i = i - 1;
    }
    None
}

/// The URL that two-tier resolution picks for `label` and `scope`.
fn resolve_url(sites: &LabelMap<Website>, label: &str, scope: WebsiteScope) -> (r: Option<String>)
    ensures
        opt_view(r) == resolved_url(sites@, label@, scope),
{
    proof {
        use_type_invariant(sites);
    }
    match sites.get(label) {
        Some(site) => {
            proof {
                let s = sites@;
                let i = choose|i: int| 0 <= i < s.len() && #[trigger] s[i].0 == label@ && s[i].1 == *site;
                lemma_label_wins(s, label@, scope, i);
            }
            Some(site.url.clone())
        },
        None => {
            proof {
                lemma_labelled_url_none(sites@, label@);
            }
            first_url_with_scope(sites, scope)
        },
    }
}

/// Adds the extra field `key` when `value` is present; `key` sorts after every
/// key already there.
fn add_extra(extra: &mut LabelMap<String>, key: &str, value: Option<String>)
    requires
        forall|j: int| 0 <= j < old(extra)@.len() ==> label_lt(#[trigger] old(extra)@[j].0, key@),
    ensures
        extra_view(final(extra)@) == extra_view(old(extra)@) + extra_entry(key@, opt_view(value)),
        forall|j: int|
            0 <= j < final(extra)@.len() ==> #[trigger] final(extra)@[j].0 == key@ || label_lt(
                final(extra)@[j].0,
                key@,
            ),
{
    match value {
        Some(v) => {
            let ghost before = extra@;
            proof {
                assert forall|j: int| 0 <= j < before.len() implies #[trigger] before[j].0 != key@ by {
                    lemma_label_lt_irreflexive(key@);
                }
            }
            let k = String::from_str(key);
            let ghost gv = v;
            extra.insert(k, v);
            proof {
                use_type_invariant(&*extra);
                let i = choose|i: int| 0 <= i <= before.len() && extra@ == #[trigger] before.insert(i, (key@, gv));
                lemma_insert_greatest(before, (key@, gv), i);
                assert(extra_view(extra@) =~= extra_view(before) + extra_entry(key@, Some(gv@)));
            }
        },
        None => {
            assert(extra_view(extra@) =~= extra_view(extra@) + extra_entry(key@, None));
        },
    }
}


impl<'a> From<&'a OSInfo> for OsRelease {
    /// Projects a metadata document onto an os-release record.
    ///
    /// The required fields are copied from the identity and version. Each URL
    /// field takes the website under its preferred label whatever that
    /// website's scope, and otherwise the first website, in label order, of
    /// its fallback scope. Policy websites and a non-empty security contact
    /// email become extra fields; of several websites with one policy scope,
    /// the last in label order wins.
    fn from(info: &'a OSInfo) -> (r: Self)
        ensures
            r@ == projection(*info),
    {
        let identity = &info.metadata.identity;
        let version = &info.metadata.version;
        let mut release = OsRelease::new(
            identity.name.clone(),
            identity.id.clone(),
            version.short.clone(),
            version.full.clone(),
            identity.display.clone(),
        );
        release.id_like = identity.id_like.clone();
        let sites = &info.resources.websites;
        release.home_url = resolve_url(sites, "homepage", WebsiteScope::Public);
        release.support_url = resolve_url(sites, "support", WebsiteScope::EndUserDocs);
        release.bug_report_url = resolve_url(sites, "bugs", WebsiteScope::DeveloperDocs);
        release.documentation_url = resolve_url(sites, "documentation", WebsiteScope::EndUserDocs);

        let contact = match &info.security_contact {
            Some(c) => match &c.email {
                Some(e) => if e.unicode_len() > 0 {
                    Some(e.clone())
                } else {
                    None
                },
                None => None,
            },
            None => None,
        };
        proof {
            lemma_extra_keys_ascend();
        }
        let mut extra = LabelMap::new();
        add_extra(&mut extra, "PRIVACY_POLICY_URL", last_url_with_scope(sites, WebsiteScope::PrivacyPolicy));
        proof {
            lemma_labels_below(extra@, "PRIVACY_POLICY_URL"@, "SECURITY_CONTACT"@);
        }
        add_extra(&mut extra, "SECURITY_CONTACT", contact);
        proof {
            lemma_labels_below(extra@, "SECURITY_CONTACT"@, "SECURITY_POLICY_URL"@);
        }
        add_extra(&mut extra, "SECURITY_POLICY_URL", last_url_with_scope(sites, WebsiteScope::SecurityPolicy));
        proof {
            lemma_labels_below(extra@, "SECURITY_POLICY_URL"@, "TERMS_OF_SERVICE_URL"@);
        }
        add_extra(&mut extra, "TERMS_OF_SERVICE_URL", last_url_with_scope(sites, WebsiteScope::TermsOfService));
        release.extra_fields = extra;
        assert(release@.extra_fields =~= projected_extras(*info));
        release
    }
}

// The projection is stated on `from` itself, over the record's view, rather
// than as an equality of records.
impl<'a> vstd::std_specs::convert::FromSpecImpl<&'a OSInfo> for OsRelease {
    open spec fn obeys_from_spec() -> bool {
        false
    }

    open spec fn from_spec(v: &'a OSInfo) -> OsRelease {
        arbitrary()
    }
}

// ---------------------------------------------------------------------------
// Laws
// ---------------------------------------------------------------------------

/// The first website of a scope is found at index `j` when no earlier website
/// has that scope.
pub proof fn lemma_first_scope_url_at(s: Seq<(Seq<char>, Website)>, scope: WebsiteScope, j: int)
    requires
        0 <= j < s.len(),
        s[j].1.scope == scope,
        forall|k: int| 0 <= k < j ==> #[trigger] s[k].1.scope != scope,
    ensures
        first_scope_url(s, scope) == Some(s[j].1.url@),
    decreases j,
{
    if j > 0 {
        assert(s[0].1.scope != scope);
        let t = s.drop_first();
        assert forall|k: int| 0 <= k < j - 1 implies #[trigger] t[k].1.scope != scope by {
            assert(t[k] == s[k + 1]);
        }
        lemma_first_scope_url_at(t, scope, j - 1);
    }
}

/// Without a website of the scope, the scope finds nothing.
pub proof fn lemma_first_scope_url_none(s: Seq<(Seq<char>, Website)>, scope: WebsiteScope)
    requires
        forall|k: int| 0 <= k < s.len() ==> #[trigger] s[k].1.scope != scope,
    ensures
        first_scope_url(s, scope) is None,
    decreases s.len(),
{
    if s.len() > 0 {
        let t = s.drop_first();
        assert forall|k: int| 0 <= k < t.len() implies #[trigger] t[k].1.scope != scope by {
            assert(t[k] == s[k + 1]);
        }
        lemma_first_scope_url_none(t, scope);
    }
}

/// The website under the preferred label wins, whatever its scope.
pub proof fn lemma_label_wins(s: Seq<(Seq<char>, Website)>, label: Seq<char>, scope: WebsiteScope, i: int)
    requires
        sorted_labels(s),
        0 <= i < s.len(),
        s[i].0 == label,
    ensures
        resolved_url(s, label, scope) == Some(s[i].1.url@),
{
    assert forall|k: int| 0 <= k < i implies #[trigger] s[k].0 != label by {
        lemma_label_lt_irreflexive(label);
    }
    lemma_labelled_url_at(s, label, i);
}

/// A website labelled "homepage" gives the home URL, whatever its scope.
pub proof fn lemma_homepage_label_wins(d: OSInfo, i: int)
    requires
        sorted_labels(d.resources.websites@),
        0 <= i < d.resources.websites@.len(),
        d.resources.websites@[i].0 == "homepage"@,
    ensures
        projection(d).home_url == Some(d.resources.websites@[i].1.url@),
{
    lemma_label_wins(d.resources.websites@, "homepage"@, WebsiteScope::Public, i);
}

/// Without a "support" label the support URL falls back to the first
/// end-user-docs website in label order.
pub proof fn lemma_support_scope_fallback(d: OSInfo, j: int)
    requires
        !has_label(d.resources.websites@, "support"@),
        0 <= j < d.resources.websites@.len(),
        d.resources.websites@[j].1.scope == WebsiteScope::EndUserDocs,
        forall|k: int|
            0 <= k < j ==> #[trigger] d.resources.websites@[k].1.scope != WebsiteScope::EndUserDocs,
    ensures
        projection(d).support_url == Some(d.resources.websites@[j].1.url@),
{
    lemma_labelled_url_none(d.resources.websites@, "support"@);
    lemma_first_scope_url_at(d.resources.websites@, WebsiteScope::EndUserDocs, j);
}

/// A URL field with neither its label nor a website of its scope is absent.
pub proof fn lemma_unresolved_url_absent(s: Seq<(Seq<char>, Website)>, label: Seq<char>, scope: WebsiteScope)
    requires
        !has_label(s, label),
        forall|k: int| 0 <= k < s.len() ==> #[trigger] s[k].1.scope != scope,
    ensures
        resolved_url(s, label, scope) is None,
{
    lemma_labelled_url_none(s, label);
    lemma_first_scope_url_none(s, scope);
}

/// The text of a projected document starts with exactly one line for each
/// required field, in the fixed order; optional fields that nothing resolves
/// leave no line at all.
pub proof fn lemma_projection_text_layout(d: OSInfo)
    ensures
        rendered(projection(d)) == line("NAME"@, d.metadata.identity.name@) + line(
            "ID"@,
            d.metadata.identity.id@,
        ) + line("VERSION_ID"@, d.metadata.version.short@) + line(
            "VERSION"@,
            d.metadata.version.full@,
        ) + line("PRETTY_NAME"@, d.metadata.identity.display@) + optional_lines(projection(d))
            + extra_lines(projected_extras(d)),
        ({
            let s = d.resources.websites@;
            &&& d.metadata.identity.id_like is None
            &&& !has_label(s, "homepage"@)
            &&& !has_label(s, "documentation"@)
            &&& !has_label(s, "support"@)
            &&& !has_label(s, "bugs"@)
            &&& forall|k: int|
                0 <= k < s.len() ==> #[trigger] s[k].1.scope != WebsiteScope::Public
                    && s[k].1.scope != WebsiteScope::EndUserDocs && s[k].1.scope
                    != WebsiteScope::DeveloperDocs
        }) ==> optional_lines(projection(d)) == Seq::<char>::empty(),
{
    let s = d.resources.websites@;
    if d.metadata.identity.id_like is None && !has_label(s, "homepage"@) && !has_label(
        s,
        "documentation"@,
    ) && !has_label(s, "support"@) && !has_label(s, "bugs"@) && forall|k: int|
        0 <= k < s.len() ==> #[trigger] s[k].1.scope != WebsiteScope::Public && s[k].1.scope
            != WebsiteScope::EndUserDocs && s[k].1.scope != WebsiteScope::DeveloperDocs {
        lemma_unresolved_url_absent(s, "homepage"@, WebsiteScope::Public);
        lemma_unresolved_url_absent(s, "documentation"@, WebsiteScope::EndUserDocs);
        lemma_unresolved_url_absent(s, "support"@, WebsiteScope::EndUserDocs);
        lemma_unresolved_url_absent(s, "bugs"@, WebsiteScope::DeveloperDocs);
        assert(optional_lines(projection(d)) =~= Seq::<char>::empty());
    }
}

/// A security contact without a non-empty email never yields a
/// `SECURITY_CONTACT` field; one with a non-empty email always does.
pub proof fn lemma_security_contact_field(d: OSInfo)
    ensures
        contact_email(d.security_contact) is None ==> !has_label(
            projection(d).extra_fields,
            "SECURITY_CONTACT"@,
        ),
        contact_email(d.security_contact) is Some ==> has_label(
            projection(d).extra_fields,
            "SECURITY_CONTACT"@,
        ),
{
    let p = "PRIVACY_POLICY_URL"@;
    let c = "SECURITY_CONTACT"@;
    let sp = "SECURITY_POLICY_URL"@;
    let t = "TERMS_OF_SERVICE_URL"@;
    lemma_extra_keys_ascend();
    lemma_label_lt_transitive(c, sp, t);
    lemma_label_lt_irreflexive(c);
    crate::label_map::lemma_label_lt_asymmetric(p, c);
    let e = projected_extras(d);
    let s = d.resources.websites@;
    let e1 = extra_entry(p, last_scope_url(s, WebsiteScope::PrivacyPolicy));
    let e2 = extra_entry(c, contact_email(d.security_contact));
    let e3 = extra_entry(sp, last_scope_url(s, WebsiteScope::SecurityPolicy));
    let e4 = extra_entry(t, last_scope_url(s, WebsiteScope::TermsOfService));
    assert(e == e1 + e2 + e3 + e4);
    if contact_email(d.security_contact) is None {
        assert forall|i: int| 0 <= i < e.len() implies #[trigger] e[i].0 != c by {
            assert(e =~= e1 + e3 + e4);
            assert(e[i].0 == p || e[i].0 == sp || e[i].0 == t);
        }
    } else {
        assert(e[e1.len() as int].0 == c);
    }
}

/// The text of a record depends on its extra fields' contents alone, not on
/// the order in which they were added: two records with the same fields and
/// the same extra entries, each kept in ascending key order, read the same.
pub proof fn lemma_text_ignores_insertion_order(a: OsReleaseView, b: OsReleaseView)
    requires
        sorted_labels(a.extra_fields),
        sorted_labels(b.extra_fields),
        forall|e: (Seq<char>, Seq<char>)| a.extra_fields.contains(e) <==> b.extra_fields.contains(e),
        a.name == b.name,
        a.id == b.id,
        a.version_id == b.version_id,
        a.version == b.version,
        a.pretty_name == b.pretty_name,
        a.id_like == b.id_like,
        a.home_url == b.home_url,
        a.documentation_url == b.documentation_url,
        a.support_url == b.support_url,
        a.bug_report_url == b.bug_report_url,
    ensures
        rendered(a) == rendered(b),
{
    crate::label_map::lemma_sorted_entries_canonical(a.extra_fields, b.extra_fields);
}

} // verus!
