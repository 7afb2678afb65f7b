//! The laws the library promises, stated over the spec functions its
//! contracts use and proved once for all inputs.

use vstd::prelude::*;
use crate::ecosystem::{Ecosystem, wire_view, tag_view, spec_parse_tag};
use crate::model::{AdvisoryView, spec_best_severity, spec_lite, spec_first_kind_nonempty};
use crate::encode::{
    spec_query_body,
    json_quoted,
    json_escape,
    json_escape_char,
    hex_char,
    spec_table_lines,
    spec_table_advisory_line,
};
use crate::decode::{parse_string, string_body, hex_val, hex4_val, simple_unescape, parse_opt_string, is_null_at, is_ws, ws_end, sev_members, parse_sev_obj, sev_items, parse_sev_array, adv_members, parse_advisory, adv_items, parse_adv_array, resp_members, spec_parse_response};
use crate::model::SeverityView;

verus! {

/// Every CLI tag parses back to its own ecosystem, and each ecosystem's wire
/// name is the canonical OSV name from the registry table.
pub proof fn lemma_ecosystem_registry()
    ensures
        forall|e: Ecosystem| #[trigger] spec_parse_tag(tag_view(e)) == Some(e),
        wire_view(Ecosystem::CratesIo) == "crates.io"@,
        wire_view(Ecosystem::Pypi) == "PyPI"@,
        wire_view(Ecosystem::Npm) == "npm"@,
        wire_view(Ecosystem::Rubygems) == "RubyGems"@,
        wire_view(Ecosystem::Maven) == "Maven"@,
        wire_view(Ecosystem::Packagist) == "Packagist"@,
        wire_view(Ecosystem::Go) == "Go"@,
        wire_view(Ecosystem::Nuget) == "NuGet"@,
        wire_view(Ecosystem::Pub) == "Pub"@,
{
    broadcast use vstd::string::group_string_axioms;

    reveal_strlit("crates-io");
    reveal_strlit("pypi");
    reveal_strlit("npm");
    reveal_strlit("rubygems");
    reveal_strlit("maven");
    reveal_strlit("packagist");
    reveal_strlit("go");
    reveal_strlit("nuget");
    reveal_strlit("pub");
    assert("crates-io"@.len() == 9);
    assert("pypi"@.len() == 4);
    assert("npm"@.len() == 3);
    assert("rubygems"@.len() == 8);
    assert("maven"@.len() == 5);
    assert("packagist"@.len() == 9);
    assert("go"@.len() == 2);
    assert("nuget"@.len() == 5);
    assert("pub"@.len() == 3);
    assert("npm"@[0] == 'n');
    assert("pub"@[0] == 'p');
    assert("maven"@[0] == 'm');
    assert("nuget"@[0] == 'n');
    assert("crates-io"@[0] == 'c');
    assert("packagist"@[0] == 'p');
    assert forall|e: Ecosystem| #[trigger] spec_parse_tag(tag_view(e)) == Some(e) by {
        match e {
            Ecosystem::CratesIo => assert(spec_parse_tag(tag_view(e)) == Some(e)),
            Ecosystem::Pypi => assert(spec_parse_tag(tag_view(e)) == Some(e)),
            Ecosystem::Npm => assert(spec_parse_tag(tag_view(e)) == Some(e)),
            Ecosystem::Rubygems => assert(spec_parse_tag(tag_view(e)) == Some(e)),
            Ecosystem::Maven => assert(spec_parse_tag(tag_view(e)) == Some(e)),
            Ecosystem::Packagist => assert(spec_parse_tag(tag_view(e)) == Some(e)),
            Ecosystem::Go => assert(spec_parse_tag(tag_view(e)) == Some(e)),
            Ecosystem::Nuget => assert(spec_parse_tag(tag_view(e)) == Some(e)),
            Ecosystem::Pub => assert(spec_parse_tag(tag_view(e)) == Some(e)),
        }
    }
}

/// When the first severity entry has a non-empty kind, the best severity is
/// exactly that kind.
pub proof fn lemma_best_severity_first_kind(a: AdvisoryView)
    requires
        spec_first_kind_nonempty(a),
    ensures
        spec_best_severity(a) == a.severity[0].kind,
{
}

/// An advisory with no severity entries has no best severity, and its lite
/// projection carries no severity either.
pub proof fn lemma_empty_severity(a: AdvisoryView)
    requires
        a.severity.len() == 0,
    ensures
        spec_best_severity(a) is None,
        spec_lite(a).severity is None,
{
}

/// With no version filter, the query body is exactly the package object and
/// nothing else: no `version` key is serialized in any form.
pub proof fn lemma_query_body_version_omitted(name: Seq<char>, eco: Ecosystem)
    ensures
        spec_query_body(name, eco, None) == "{\"package\":{\"name\":"@ + json_quoted(name)
            + ",\"ecosystem\":"@ + json_quoted(wire_view(eco)) + "}"@ + "}"@,
{
}

/// Table mode renders one line per advisory, after the banner, the package
/// line, and the heading; an empty response renders the single
/// no-vulnerabilities line and no advisory lines.
pub proof fn lemma_table_line_count(
    pkg: Seq<char>,
    eco: Ecosystem,
    version: Option<Seq<char>>,
    advs: Seq<AdvisoryView>,
)
    ensures
        advs.len() > 0 ==> spec_table_lines(pkg, eco, version, advs).len() == 3 + advs.len(),
        advs.len() > 0 ==> forall|i: int|
            0 <= i < advs.len() ==> spec_table_lines(pkg, eco, version, advs)[3 + i]
                == spec_table_advisory_line(advs[i]),
        advs.len() == 0 ==> spec_table_lines(pkg, eco, version, advs).len() == 3,
        advs.len() == 0 ==> spec_table_lines(pkg, eco, version, advs)[2]
            == "No vulnerabilities found."@,
{
}


// ---------------------------------------------------------------------------
// round trip: parsing a canonically encoded value gives the value back
// ---------------------------------------------------------------------------

/// Characters with equal code points are equal.
pub proof fn lemma_char_code_eq(a: char, b: char)
    requires
        a as u32 == b as u32,
    ensures
        a == b,
{
    vstd::utf8::char_u32_cast(a, a as u32);
    vstd::utf8::char_u32_cast(b, a as u32);
}

/// The escaped form of a non-empty string starts with its first character's
/// escape.
pub proof fn lemma_escape_cons(x: Seq<char>)
    requires
        x.len() > 0,
    ensures
        json_escape(x) == json_escape_char(x[0]) + json_escape(x.subrange(1, x.len() as int)),
    decreases x.len(),
{
    if x.len() == 1 {
        assert(x.drop_last() =~= Seq::<char>::empty());
        assert(x.subrange(1, x.len() as int) =~= Seq::<char>::empty());
        assert(json_escape(x) =~= json_escape_char(x[0]) + json_escape(
            x.subrange(1, x.len() as int),
        ));
    } else {
        let y = x.drop_last();
        lemma_escape_cons(y);
        let xt = x.subrange(1, x.len() as int);
        assert(xt.drop_last() =~= y.subrange(1, y.len() as int));
        assert(xt.last() == x.last());
        assert(json_escape(x) =~= json_escape_char(x[0]) + json_escape(xt));
    }
}

/// Parsing a string body at the start of `escape(x) + '"' + rest` yields
/// exactly `x` and stops just after the closing quote.
pub proof fn lemma_string_body_round_trip(pre: Seq<char>, x: Seq<char>, rest: Seq<char>)
    ensures
        string_body(pre + json_escape(x) + seq!['"'] + rest, pre.len() as int) == Some(
            (x, (pre.len() + json_escape(x).len() + 1) as int),
        ),
    decreases x.len(),
{
    let s = pre + json_escape(x) + seq!['"'] + rest;
    let i = pre.len() as int;
    if x.len() == 0 {
        assert(json_escape(x) =~= Seq::<char>::empty());
        assert(s[i] == '"');
        assert(string_body(s, i) == Some((Seq::<char>::empty(), i + 1)));
        assert(Seq::<char>::empty() =~= x);
    } else {
        let x0 = x[0];
        let xt = x.subrange(1, x.len() as int);
        lemma_escape_cons(x);
        let ec = json_escape_char(x0);
        let pre2 = pre + ec;
        lemma_string_body_round_trip(pre2, xt, rest);
        assert(pre2 + json_escape(xt) + seq!['"'] + rest =~= s);
        let tail_res = string_body(s, pre2.len() as int);
        assert(tail_res == Some((xt, (pre2.len() + json_escape(xt).len() + 1) as int)));
        let v = x0 as u32;
        assert(seq![x0] + xt =~= x);
        if v == 34 {
            lemma_char_code_eq(x0, '"');
            assert(s[i] == '\\');
            assert(s[i + 1] == '"');
            assert(simple_unescape(s[i + 1]) == Some('"'));
        } else if v == 92 {
            lemma_char_code_eq(x0, '\\');
            assert(s[i] == '\\');
            assert(s[i + 1] == '\\');
            assert(simple_unescape(s[i + 1]) == Some('\\'));
        } else if v == 8 {
            lemma_char_code_eq(x0, '\u{8}');
            assert(s[i] == '\\');
            assert(s[i + 1] == 'b');
            assert(simple_unescape(s[i + 1]) == Some('\u{8}'));
        } else if v == 12 {
            lemma_char_code_eq(x0, '\u{c}');
            assert(s[i] == '\\');
            assert(s[i + 1] == 'f');
            assert(simple_unescape(s[i + 1]) == Some('\u{c}'));
        } else if v == 10 {
            lemma_char_code_eq(x0, '\n');
            assert(s[i] == '\\');
            assert(s[i + 1] == 'n');
            assert(simple_unescape(s[i + 1]) == Some('\n'));
        } else if v == 13 {
            lemma_char_code_eq(x0, '\r');
            assert(s[i] == '\\');
            assert(s[i + 1] == 'r');
            assert(simple_unescape(s[i + 1]) == Some('\r'));
        } else if v == 9 {
            lemma_char_code_eq(x0, '\t');
            assert(s[i] == '\\');
            assert(s[i + 1] == 't');
            assert(simple_unescape(s[i + 1]) == Some('\t'));
        } else if v < 32 {
            assert(s[i] == '\\');
            assert(s[i + 1] == 'u');
            assert(s[i + 2] == '0');
            assert(s[i + 3] == '0');
            assert(s[i + 4] == hex_char(v as int / 16));
            assert(s[i + 5] == hex_char(v as int % 16));
            lemma_hex_char_val(v as int / 16);
            lemma_hex_char_val(v as int % 16);
            assert(hex_val(s[i + 2]) == 0);
            assert(hex_val(s[i + 3]) == 0);
            assert(hex4_val(s, i + 2) == v);
            vstd::utf8::char_u32_cast(x0, v);
            assert(((v as u32) as char) == x0);
            assert(string_body(s, i) == Some((seq![x0] + xt, (pre2.len() + json_escape(
                xt,
            ).len() + 1) as int)));
        } else {
            assert(s[i] == x0);
            assert(x0 as u32 >= 32);
            if s[i] == '"' {
                assert(v == 34);
                assert(false);
            }
            if s[i] == '\\' {
                assert(v == 92);
                assert(false);
            }
            assert(string_body(s, i) == Some((seq![x0] + xt, (pre2.len() + json_escape(
                xt,
            ).len() + 1) as int)));
        }
        assert(pre2.len() + json_escape(xt).len() + 1 == pre.len() + json_escape(x).len() + 1);
        assert(string_body(s, i) == Some((x, (pre.len() + json_escape(x).len() + 1) as int)));
    }
}

/// A hexadecimal digit character's value is the digit it renders.
pub proof fn lemma_hex_char_val(n: int)
    requires
        0 <= n < 16,
    ensures
        hex_val(hex_char(n)) == n,
{
}

/// Parsing a quoted string at the start of `json_quoted(x) + rest` yields
/// exactly `x` and stops just after the closing quote.
pub proof fn lemma_parse_string_round_trip(pre: Seq<char>, x: Seq<char>, rest: Seq<char>)
    ensures
        parse_string(pre + json_quoted(x) + rest, pre.len() as int) == Some(
            (x, (pre.len() + json_quoted(x).len()) as int),
        ),
{
    let s = pre + json_quoted(x) + rest;
    let i = pre.len() as int;
    assert(s[i] == '"');
    let pre2 = pre + seq!['"'];
    lemma_string_body_round_trip(pre2, x, rest);
    assert(pre2 + json_escape(x) + seq!['"'] + rest =~= s);
    assert(string_body(s, i + 1) == Some((x, (pre2.len() + json_escape(x).len() + 1) as int)));
    assert(pre2.len() + json_escape(x).len() + 1 == pre.len() + json_quoted(x).len());
}


// ---------------------------------------------------------------------------
// the canonical service encoding
// ---------------------------------------------------------------------------

/// The canonical encoding of an optional string member value.
pub open spec fn enc_opt_str(o: Option<Seq<char>>) -> Seq<char> {
    match o {
        Some(x) => json_quoted(x),
        None => "null"@,
    }
}

/// The canonical encoding of one severity entry.
#[verifier::opaque]
pub open spec fn enc_sev(sv: SeverityView) -> Seq<char> {
    seq!['{'] + json_quoted("type"@) + seq![':'] + enc_opt_str(sv.kind) + seq![','] + json_quoted(
        "score"@,
    ) + seq![':'] + enc_opt_str(sv.score) + seq!['}']
}

/// Skipping whitespace where none stands does not move.
pub proof fn lemma_ws_end_here(s: Seq<char>, i: int)
    requires
        0 <= i <= s.len(),
        i == s.len() || !is_ws(s[i]),
    ensures
        ws_end(s, i) == i,
{
}

/// Parsing an optional string value at the start of `enc_opt_str(o) + rest`
/// yields exactly `o`.
pub proof fn lemma_parse_opt_string_round_trip(pre: Seq<char>, o: Option<Seq<char>>, rest: Seq<char>)
    ensures
        parse_opt_string(pre + enc_opt_str(o) + rest, pre.len() as int) == Some(
            (o, (pre.len() + enc_opt_str(o).len()) as int),
        ),
        !is_ws((pre + enc_opt_str(o) + rest)[pre.len() as int]),
{
    let s = pre + enc_opt_str(o) + rest;
    let i = pre.len() as int;
    match o {
        Some(x) => {
            assert(s[i] == '"');
            let pre2 = pre + seq!['"'];
            lemma_string_body_round_trip(pre2, x, rest);
            assert(pre2 + json_escape(x) + seq!['"'] + rest =~= s);
            assert(string_body(s, i + 1) == Some(
                (x, (pre2.len() + json_escape(x).len() + 1) as int),
            ));
        },
        None => {
            reveal_strlit("null");
            assert("null"@.len() == 4);
            assert(s[i] == 'n');
            assert(s[i + 1] == 'u');
            assert(s[i + 2] == 'l');
            assert(s[i + 3] == 'l');
            assert(is_null_at(s, i));
        },
    }
}

/// Walking the members of a severity object from its `score` member: the
/// kind seen so far is kept and the score is taken from the text.
#[verifier::rlimit(100)]
pub proof fn lemma_sev_members_score(
    pre: Seq<char>,
    kind: Option<Seq<char>>,
    score: Option<Seq<char>>,
    rest: Seq<char>,
)
    ensures
        sev_members(
            pre + json_quoted("score"@) + seq![':'] + enc_opt_str(score) + seq!['}'] + rest,
            pre.len() as int,
            kind,
            None,
        ) == Some(
            (
                SeverityView { kind, score },
                (pre.len() + json_quoted("score"@).len() + 1 + enc_opt_str(score).len() + 1) as int,
            ),
        ),
{
    reveal_strlit("score");
    reveal_strlit("type");
    assert("score"@.len() == 5);
    assert("type"@.len() == 4);
    let seg_k = json_quoted("score"@);
    let seg_v = enc_opt_str(score);
    let s = pre + seg_k + seq![':'] + seg_v + seq!['}'] + rest;
    let i = pre.len() as int;
    let p1 = pre + seg_k;
    let p2 = p1 + seq![':'];
    let p3 = p2 + seg_v;
    let r3 = seq!['}'] + rest;
    let r2 = seg_v + r3;
    let r1 = seq![':'] + r2;
    assert(s =~= pre + (seg_k + r1));
    assert(s =~= p1 + r1);
    assert(s =~= p2 + r2);
    assert(s =~= p3 + r3);
    lemma_parse_string_round_trip(pre, "score"@, r1);
    assert(parse_string(s, i) == Some(("score"@, p1.len() as int)));
    assert("score"@ != "type"@);
    assert(s[p1.len() as int] == ':');
    lemma_ws_end_here(s, p1.len() as int);
    lemma_parse_opt_string_round_trip(p2, score, r3);
    assert(parse_opt_string(s, p2.len() as int) == Some((score, p3.len() as int)));
    lemma_ws_end_here(s, p2.len() as int);
    assert(s[p3.len() as int] == '}');
    lemma_ws_end_here(s, p3.len() as int);
    assert(sev_members(s, i, kind, None) == Some(
        (SeverityView { kind, score }, (p3.len() + 1) as int),
    ));
}

/// Walking the members of a severity object from its `type` member.
#[verifier::rlimit(100)]
pub proof fn lemma_sev_members_type(pre: Seq<char>, sv: SeverityView, rest: Seq<char>)
    ensures
        sev_members(
            pre + json_quoted("type"@) + seq![':'] + enc_opt_str(sv.kind) + seq![','] + json_quoted(
                "score"@,
            ) + seq![':'] + enc_opt_str(sv.score) + seq!['}'] + rest,
            pre.len() as int,
            None,
            None,
        ) == Some(
            (
                sv,
                (pre.len() + json_quoted("type"@).len() + 1 + enc_opt_str(sv.kind).len() + 1
                    + json_quoted("score"@).len() + 1 + enc_opt_str(sv.score).len() + 1) as int,
            ),
        ),
{
    reveal_strlit("type");
    assert("type"@.len() == 4);
    let seg_k1 = json_quoted("type"@);
    let seg_v1 = enc_opt_str(sv.kind);
    let seg_k2 = json_quoted("score"@);
    let seg_v2 = enc_opt_str(sv.score);
    let s = pre + seg_k1 + seq![':'] + seg_v1 + seq![','] + seg_k2 + seq![':'] + seg_v2 + seq!['}']
        + rest;
    let i = pre.len() as int;
    let p1 = pre + seg_k1;
    let p2 = p1 + seq![':'];
    let p3 = p2 + seg_v1;
    let p4 = p3 + seq![','];
    let r4 = seg_k2 + seq![':'] + seg_v2 + seq!['}'] + rest;
    let r3 = seq![','] + r4;
    let r2 = seg_v1 + r3;
    let r1 = seq![':'] + r2;
    assert(s =~= p1 + r1);
    assert(s =~= p2 + r2);
    assert(s =~= p3 + r3);
    assert(s =~= p4 + r4);
    lemma_parse_string_round_trip(pre, "type"@, r1);
    assert(parse_string(s, i) == Some(("type"@, p1.len() as int)));
    assert(s[p1.len() as int] == ':');
    lemma_ws_end_here(s, p1.len() as int);
    lemma_parse_opt_string_round_trip(p2, sv.kind, r3);
    assert(parse_opt_string(s, p2.len() as int) == Some((sv.kind, p3.len() as int)));
    lemma_ws_end_here(s, p2.len() as int);
    assert(s[p3.len() as int] == ',');
    lemma_ws_end_here(s, p3.len() as int);
    lemma_sev_members_score(p4, sv.kind, sv.score, rest);
    assert(p4 + json_quoted("score"@) + seq![':'] + enc_opt_str(sv.score) + seq!['}'] + rest =~= s);
    assert(s[p4.len() as int] == '"');
    lemma_ws_end_here(s, p4.len() as int);
    assert(SeverityView { kind: sv.kind, score: sv.score } == sv);
    assert(sev_members(s, i, None, None) == sev_members(s, p4.len() as int, sv.kind, None));
}

/// Parsing a severity object at the start of `enc_sev(sv) + rest` yields
/// exactly `sv`.
#[verifier::rlimit(100)]
pub proof fn lemma_parse_sev_obj_round_trip(pre: Seq<char>, sv: SeverityView, rest: Seq<char>)
    ensures
        parse_sev_obj(pre + enc_sev(sv) + rest, pre.len() as int) == Some(
            (sv, (pre.len() + enc_sev(sv).len()) as int),
        ),
{
    reveal(enc_sev);
    let s = pre + enc_sev(sv) + rest;
    let i = pre.len() as int;
    let p0 = pre + seq!['{'];
    lemma_sev_members_type(p0, sv, rest);
    assert(p0 + json_quoted("type"@) + seq![':'] + enc_opt_str(sv.kind) + seq![','] + json_quoted(
        "score"@,
    ) + seq![':'] + enc_opt_str(sv.score) + seq!['}'] + rest =~= s);
    assert(s[i] == '{');
    assert(s[i + 1] == '"');
    lemma_ws_end_here(s, i + 1);
    assert(parse_sev_obj(s, i) == sev_members(s, i + 1, None, None));
}


/// The canonical encoding of the items of a severity array.
pub open spec fn enc_sev_items(svs: Seq<SeverityView>) -> Seq<char>
    decreases svs.len(),
{
    if svs.len() == 0 {
        Seq::empty()
    } else if svs.len() == 1 {
        enc_sev(svs[0])
    } else {
        enc_sev_items(svs.drop_last()) + seq![','] + enc_sev(svs.last())
    }
}

/// The canonical encoding of a severity array.
pub open spec fn enc_sev_array(svs: Seq<SeverityView>) -> Seq<char> {
    seq!['['] + enc_sev_items(svs) + seq![']']
}

/// The encoded items of a non-empty severity array start with the first
/// item's encoding.
pub proof fn lemma_enc_sev_items_cons(svs: Seq<SeverityView>)
    requires
        svs.len() > 0,
    ensures
        svs.len() == 1 ==> enc_sev_items(svs) == enc_sev(svs[0]),
        svs.len() > 1 ==> enc_sev_items(svs) == enc_sev(svs[0]) + seq![','] + enc_sev_items(
            svs.subrange(1, svs.len() as int),
        ),
    decreases svs.len(),
{
    if svs.len() <= 1 {
    } else if svs.len() == 2 {
        let t = svs.subrange(1, svs.len() as int);
        assert(svs.drop_last() =~= seq![svs[0]]);
        assert(t =~= seq![svs[1]]);
        assert(enc_sev_items(svs) == enc_sev_items(svs.drop_last()) + seq![','] + enc_sev(
            svs.last(),
        ));
        assert(enc_sev_items(seq![svs[0]]) == enc_sev(svs[0]));
        assert(enc_sev_items(t) == enc_sev(t[0]));
        assert(t[0] == svs[1]);
        assert(enc_sev_items(svs) =~= enc_sev(svs[0]) + seq![','] + enc_sev_items(t));
    } else {
        let y = svs.drop_last();
        lemma_enc_sev_items_cons(y);
        let t = svs.subrange(1, svs.len() as int);
        assert(t.drop_last() =~= y.subrange(1, y.len() as int));
        assert(t.last() == svs.last());
        assert(t.len() > 1);
        assert(enc_sev_items(t) == enc_sev_items(t.drop_last()) + seq![','] + enc_sev(t.last()));
        assert(enc_sev_items(svs) == enc_sev_items(y) + seq![','] + enc_sev(svs.last()));
        assert(svs[0] == y[0]);
        assert(enc_sev_items(svs) =~= enc_sev(svs[0]) + seq![','] + enc_sev_items(t));
    }
}

/// Walking the last item of an encoded severity array.
#[verifier::rlimit(100)]
pub proof fn lemma_sev_items_last(
    pre: Seq<char>,
    sv: SeverityView,
    acc: Seq<SeverityView>,
    rest: Seq<char>,
)
    ensures
        sev_items(pre + enc_sev(sv) + seq![']'] + rest, pre.len() as int, acc) == Some(
            (acc.push(sv), (pre.len() + enc_sev(sv).len() + 1) as int),
        ),
{
    let s = pre + enc_sev(sv) + seq![']'] + rest;
    let i = pre.len() as int;
    lemma_parse_sev_obj_round_trip(pre, sv, seq![']'] + rest);
    assert(pre + enc_sev(sv) + (seq![']'] + rest) =~= s);
    let p1 = (pre.len() + enc_sev(sv).len()) as int;
    assert(parse_sev_obj(s, i) == Some((sv, p1)));
    assert(s =~= (pre + enc_sev(sv)) + (seq![']'] + rest));
    assert(s[p1] == ']');
    lemma_ws_end_here(s, p1);
}

/// Walking one item of an encoded severity array followed by a comma steps
/// to the next item with the item appended.
#[verifier::rlimit(100)]
pub proof fn lemma_sev_items_step(
    pre: Seq<char>,
    sv: SeverityView,
    acc: Seq<SeverityView>,
    tail: Seq<char>,
)
    requires
        tail.len() > 0,
        tail[0] == '{',
    ensures
        sev_items(pre + enc_sev(sv) + seq![','] + tail, pre.len() as int, acc) == sev_items(
            pre + enc_sev(sv) + seq![','] + tail,
            (pre.len() + enc_sev(sv).len() + 1) as int,
            acc.push(sv),
        ),
{
    let s = pre + enc_sev(sv) + seq![','] + tail;
    let i = pre.len() as int;
    lemma_parse_sev_obj_round_trip(pre, sv, seq![','] + tail);
    assert(pre + enc_sev(sv) + (seq![','] + tail) =~= s);
    let p1 = (pre.len() + enc_sev(sv).len()) as int;
    assert(parse_sev_obj(s, i) == Some((sv, p1)));
    assert(s =~= (pre + enc_sev(sv)) + (seq![','] + tail));
    assert(s[p1] == ',');
    lemma_ws_end_here(s, p1);
    assert(s =~= (pre + enc_sev(sv) + seq![',']) + tail);
    assert(s[p1 + 1] == '{');
    lemma_ws_end_here(s, p1 + 1);
}

/// An encoded severity object starts with an opening brace.
pub proof fn lemma_enc_sev_head(sv: SeverityView)
    ensures
        enc_sev(sv).len() > 0,
        enc_sev(sv)[0] == '{',
{
    reveal(enc_sev);
    assert(enc_sev(sv)[0] == '{');
}

/// The encoded items of a non-empty severity array start with an opening
/// brace.
pub proof fn lemma_enc_sev_items_head(svs: Seq<SeverityView>)
    requires
        svs.len() > 0,
    ensures
        enc_sev_items(svs).len() > 0,
        enc_sev_items(svs)[0] == '{',
{
    lemma_enc_sev_items_cons(svs);
    lemma_enc_sev_head(svs[0]);
    if svs.len() > 1 {
        assert(enc_sev_items(svs)[0] == enc_sev(svs[0])[0]);
    }
}

/// Walking the items of an encoded severity array appends exactly those
/// items, in order.
#[verifier::rlimit(100)]
pub proof fn lemma_sev_items_round_trip(
    pre: Seq<char>,
    svs: Seq<SeverityView>,
    acc: Seq<SeverityView>,
    rest: Seq<char>,
)
    requires
        svs.len() > 0,
    ensures
        sev_items(pre + enc_sev_items(svs) + seq![']'] + rest, pre.len() as int, acc) == Some(
            (acc + svs, (pre.len() + enc_sev_items(svs).len() + 1) as int),
        ),
    decreases svs.len(),
{
    let s = pre + enc_sev_items(svs) + seq![']'] + rest;
    lemma_enc_sev_items_cons(svs);
    if svs.len() == 1 {
        lemma_sev_items_last(pre, svs[0], acc, rest);
        assert(pre + enc_sev(svs[0]) + seq![']'] + rest =~= s);
        assert(acc.push(svs[0]) =~= acc + svs);
    } else {
        let t = svs.subrange(1, svs.len() as int);
        let tail = enc_sev_items(t) + seq![']'] + rest;
        lemma_enc_sev_items_head(t);
        assert(tail[0] == '{');
        lemma_sev_items_step(pre, svs[0], acc, tail);
        assert(pre + enc_sev(svs[0]) + seq![','] + tail =~= s);
        let p2 = pre + enc_sev(svs[0]) + seq![','];
        lemma_sev_items_round_trip(p2, t, acc.push(svs[0]), rest);
        assert(p2 + enc_sev_items(t) + seq![']'] + rest =~= s);
        assert(acc.push(svs[0]) + t =~= acc + svs);
    }
}

/// Parsing a severity array at the start of `enc_sev_array(svs) + rest`
/// yields exactly `svs`.
#[verifier::rlimit(100)]
pub proof fn lemma_parse_sev_array_round_trip(pre: Seq<char>, svs: Seq<SeverityView>, rest: Seq<char>)
    ensures
        parse_sev_array(pre + enc_sev_array(svs) + rest, pre.len() as int) == Some(
            (svs, (pre.len() + enc_sev_array(svs).len()) as int),
        ),
{
    let s = pre + enc_sev_array(svs) + rest;
    let i = pre.len() as int;
    let p0 = pre + seq!['['];
    assert(s =~= p0 + (enc_sev_items(svs) + seq![']'] + rest));
    assert(s[i] == '[');
    if svs.len() == 0 {
        assert(enc_sev_items(svs) =~= Seq::<char>::empty());
        assert(s =~= p0 + (seq![']'] + rest));
        assert(s[i + 1] == ']');
        lemma_ws_end_here(s, i + 1);
        assert(Seq::<SeverityView>::empty() =~= svs);
    } else {
        lemma_enc_sev_items_head(svs);
        assert(s[i + 1] == '{');
        lemma_ws_end_here(s, i + 1);
        lemma_sev_items_round_trip(p0, svs, Seq::empty(), rest);
        assert(p0 + enc_sev_items(svs) + seq![']'] + rest =~= s);
        assert(Seq::<SeverityView>::empty() + svs =~= svs);
    }
}


// ---------------------------------------------------------------------------
// advisories
// ---------------------------------------------------------------------------

/// The canonical encoding of one advisory.
#[verifier::opaque]
pub open spec fn enc_adv(a: AdvisoryView) -> Seq<char> {
    seq!['{'] + json_quoted("id"@) + seq![':'] + json_quoted(a.id) + seq![','] + json_quoted(
        "summary"@,
    ) + seq![':'] + enc_opt_str(a.summary) + seq![','] + json_quoted("details"@) + seq![':']
        + enc_opt_str(a.details) + seq![','] + json_quoted("severity"@) + seq![':'] + enc_sev_array(
        a.severity,
    ) + seq!['}']
}

/// Walking the members of an advisory object from its `severity` member.
#[verifier::rlimit(100)]
pub proof fn lemma_adv_members_severity(
    pre: Seq<char>,
    idv: Seq<char>,
    summary: Option<Seq<char>>,
    details: Option<Seq<char>>,
    svs: Seq<SeverityView>,
    rest: Seq<char>,
)
    ensures
        adv_members(
            pre + json_quoted("severity"@) + seq![':'] + enc_sev_array(svs) + seq!['}'] + rest,
            pre.len() as int,
            Some(idv),
            summary,
            details,
            None,
        ) == Some(
            (
                AdvisoryView { id: idv, summary, details, severity: svs },
                (pre.len() + json_quoted("severity"@).len() + 1 + enc_sev_array(svs).len()
                    + 1) as int,
            ),
        ),
{
    reveal_strlit("id");
    reveal_strlit("summary");
    reveal_strlit("details");
    reveal_strlit("severity");
    assert("id"@.len() == 2);
    assert("summary"@.len() == 7);
    assert("details"@.len() == 7);
    assert("severity"@.len() == 8);
    let seg_k = json_quoted("severity"@);
    let seg_v = enc_sev_array(svs);
    let s = pre + seg_k + seq![':'] + seg_v + seq!['}'] + rest;
    let i = pre.len() as int;
    let p1 = pre + seg_k;
    let p2 = p1 + seq![':'];
    let p3 = p2 + seg_v;
    let r3 = seq!['}'] + rest;
    let r2 = seg_v + r3;
    let r1 = seq![':'] + r2;
    assert(s =~= p1 + r1);
    assert(s =~= p2 + r2);
    assert(s =~= p3 + r3);
    lemma_parse_string_round_trip(pre, "severity"@, r1);
    assert(parse_string(s, i) == Some(("severity"@, p1.len() as int)));
    assert("severity"@ != "id"@);
    assert("severity"@ != "summary"@);
    assert("severity"@ != "details"@);
    assert(s[p1.len() as int] == ':');
    lemma_ws_end_here(s, p1.len() as int);
    lemma_parse_sev_array_round_trip(p2, svs, r3);
    assert(parse_sev_array(s, p2.len() as int) == Some((svs, p3.len() as int)));
    assert(s[p2.len() as int] == '[');
    lemma_ws_end_here(s, p2.len() as int);
    assert(s[p3.len() as int] == '}');
    lemma_ws_end_here(s, p3.len() as int);
    assert(adv_members(s, i, Some(idv), summary, details, None) == Some(
        (AdvisoryView { id: idv, summary, details, severity: svs }, (p3.len() + 1) as int),
    ));
}

/// Walking the members of an advisory object from its `details` member.
#[verifier::rlimit(100)]
pub proof fn lemma_adv_members_details(
    pre: Seq<char>,
    idv: Seq<char>,
    summary: Option<Seq<char>>,
    details: Option<Seq<char>>,
    svs: Seq<SeverityView>,
    rest: Seq<char>,
)
    ensures
        adv_members(
            pre + json_quoted("details"@) + seq![':'] + enc_opt_str(details) + seq![',']
                + json_quoted("severity"@) + seq![':'] + enc_sev_array(svs) + seq!['}'] + rest,
            pre.len() as int,
            Some(idv),
            summary,
            None,
            None,
        ) == Some(
            (
                AdvisoryView { id: idv, summary, details, severity: svs },
                (pre.len() + json_quoted("details"@).len() + 1 + enc_opt_str(details).len() + 1
                    + json_quoted("severity"@).len() + 1 + enc_sev_array(svs).len() + 1) as int,
            ),
        ),
{
    reveal_strlit("id");
    reveal_strlit("summary");
    reveal_strlit("details");
    assert("id"@.len() == 2);
    assert("summary"@.len() == 7);
    assert("details"@.len() == 7);
    assert("summary"@[0] == 's');
    assert("details"@[0] == 'd');
    let seg_k = json_quoted("details"@);
    let seg_v = enc_opt_str(details);
    let s = pre + seg_k + seq![':'] + seg_v + seq![','] + json_quoted("severity"@) + seq![':']
        + enc_sev_array(svs) + seq!['}'] + rest;
    let i = pre.len() as int;
    let p1 = pre + seg_k;
    let p2 = p1 + seq![':'];
    let p3 = p2 + seg_v;
    let p4 = p3 + seq![','];
    let r4 = json_quoted("severity"@) + seq![':'] + enc_sev_array(svs) + seq!['}'] + rest;
    let r3 = seq![','] + r4;
    let r2 = seg_v + r3;
    let r1 = seq![':'] + r2;
    assert(s =~= p1 + r1);
    assert(s =~= p2 + r2);
    assert(s =~= p3 + r3);
    assert(s =~= p4 + r4);
    lemma_parse_string_round_trip(pre, "details"@, r1);
    assert(parse_string(s, i) == Some(("details"@, p1.len() as int)));
    assert("details"@ != "id"@);
    assert("details"@ != "summary"@);
    assert(s[p1.len() as int] == ':');
    lemma_ws_end_here(s, p1.len() as int);
    lemma_parse_opt_string_round_trip(p2, details, r3);
    assert(parse_opt_string(s, p2.len() as int) == Some((details, p3.len() as int)));
    lemma_ws_end_here(s, p2.len() as int);
    assert(s[p3.len() as int] == ',');
    lemma_ws_end_here(s, p3.len() as int);
    lemma_adv_members_severity(p4, idv, summary, details, svs, rest);
    assert(p4 + json_quoted("severity"@) + seq![':'] + enc_sev_array(svs) + seq!['}'] + rest =~= s);
    assert(s[p4.len() as int] == '"');
    lemma_ws_end_here(s, p4.len() as int);
    assert(adv_members(s, i, Some(idv), summary, None, None) == adv_members(
        s,
        p4.len() as int,
        Some(idv),
        summary,
        details,
        None,
    ));
}

/// Walking the members of an advisory object from its `summary` member.
#[verifier::rlimit(100)]
pub proof fn lemma_adv_members_summary(
    pre: Seq<char>,
    idv: Seq<char>,
    summary: Option<Seq<char>>,
    details: Option<Seq<char>>,
    svs: Seq<SeverityView>,
    rest: Seq<char>,
)
    ensures
        adv_members(
            pre + json_quoted("summary"@) + seq![':'] + enc_opt_str(summary) + seq![',']
                + json_quoted("details"@) + seq![':'] + enc_opt_str(details) + seq![',']
                + json_quoted("severity"@) + seq![':'] + enc_sev_array(svs) + seq!['}'] + rest,
            pre.len() as int,
            Some(idv),
            None,
            None,
            None,
        ) == Some(
            (
                AdvisoryView { id: idv, summary, details, severity: svs },
                (pre.len() + json_quoted("summary"@).len() + 1 + enc_opt_str(summary).len() + 1
                    + json_quoted("details"@).len() + 1 + enc_opt_str(details).len() + 1
                    + json_quoted("severity"@).len() + 1 + enc_sev_array(svs).len() + 1) as int,
            ),
        ),
{
    reveal_strlit("id");
    reveal_strlit("summary");
    assert("id"@.len() == 2);
    assert("summary"@.len() == 7);
    let seg_k = json_quoted("summary"@);
    let seg_v = enc_opt_str(summary);
    let s = pre + seg_k + seq![':'] + seg_v + seq![','] + json_quoted("details"@) + seq![':']
        + enc_opt_str(details) + seq![','] + json_quoted("severity"@) + seq![':'] + enc_sev_array(
        svs,
    ) + seq!['}'] + rest;
    let i = pre.len() as int;
    let p1 = pre + seg_k;
    let p2 = p1 + seq![':'];
    let p3 = p2 + seg_v;
    let p4 = p3 + seq![','];
    let r4 = json_quoted("details"@) + seq![':'] + enc_opt_str(details) + seq![','] + json_quoted(
        "severity"@,
    ) + seq![':'] + enc_sev_array(svs) + seq!['}'] + rest;
    let r3 = seq![','] + r4;
    let r2 = seg_v + r3;
    let r1 = seq![':'] + r2;
    assert(s =~= p1 + r1);
    assert(s =~= p2 + r2);
    assert(s =~= p3 + r3);
    assert(s =~= p4 + r4);
    lemma_parse_string_round_trip(pre, "summary"@, r1);
    assert(parse_string(s, i) == Some(("summary"@, p1.len() as int)));
    assert("summary"@ != "id"@);
    assert(s[p1.len() as int] == ':');
    lemma_ws_end_here(s, p1.len() as int);
    lemma_parse_opt_string_round_trip(p2, summary, r3);
    assert(parse_opt_string(s, p2.len() as int) == Some((summary, p3.len() as int)));
    lemma_ws_end_here(s, p2.len() as int);
    assert(s[p3.len() as int] == ',');
    lemma_ws_end_here(s, p3.len() as int);
    lemma_adv_members_details(p4, idv, summary, details, svs, rest);
    assert(p4 + json_quoted("details"@) + seq![':'] + enc_opt_str(details) + seq![',']
        + json_quoted("severity"@) + seq![':'] + enc_sev_array(svs) + seq!['}'] + rest =~= s);
    assert(s[p4.len() as int] == '"');
    lemma_ws_end_here(s, p4.len() as int);
    assert(adv_members(s, i, Some(idv), None, None, None) == adv_members(
        s,
        p4.len() as int,
        Some(idv),
        summary,
        None,
        None,
    ));
}

/// Walking the members of an advisory object from its `id` member.
#[verifier::rlimit(100)]
pub proof fn lemma_adv_members_id(pre: Seq<char>, a: AdvisoryView, rest: Seq<char>)
    ensures
        adv_members(
            pre + json_quoted("id"@) + seq![':'] + json_quoted(a.id) + seq![','] + json_quoted(
                "summary"@,
            ) + seq![':'] + enc_opt_str(a.summary) + seq![','] + json_quoted("details"@) + seq![':']
                + enc_opt_str(a.details) + seq![','] + json_quoted("severity"@) + seq![':']
                + enc_sev_array(a.severity) + seq!['}'] + rest,
            pre.len() as int,
            None,
            None,
            None,
            None,
        ) == Some(
            (
                a,
                (pre.len() + json_quoted("id"@).len() + 1 + json_quoted(a.id).len() + 1
                    + json_quoted("summary"@).len() + 1 + enc_opt_str(a.summary).len() + 1
                    + json_quoted("details"@).len() + 1 + enc_opt_str(a.details).len() + 1
                    + json_quoted("severity"@).len() + 1 + enc_sev_array(a.severity).len()
                    + 1) as int,
            ),
        ),
{
    reveal_strlit("id");
    assert("id"@.len() == 2);
    let seg_k = json_quoted("id"@);
    let seg_v = json_quoted(a.id);
    let s = pre + seg_k + seq![':'] + seg_v + seq![','] + json_quoted("summary"@) + seq![':']
        + enc_opt_str(a.summary) + seq![','] + json_quoted("details"@) + seq![':'] + enc_opt_str(
        a.details,
    ) + seq![','] + json_quoted("severity"@) + seq![':'] + enc_sev_array(a.severity) + seq!['}']
        + rest;
    let i = pre.len() as int;
    let p1 = pre + seg_k;
    let p2 = p1 + seq![':'];
    let p3 = p2 + seg_v;
    let p4 = p3 + seq![','];
    let r4 = json_quoted("summary"@) + seq![':'] + enc_opt_str(a.summary) + seq![','] + json_quoted(
        "details"@,
    ) + seq![':'] + enc_opt_str(a.details) + seq![','] + json_quoted("severity"@) + seq![':']
        + enc_sev_array(a.severity) + seq!['}'] + rest;
    let r3 = seq![','] + r4;
    let r2 = seg_v + r3;
    let r1 = seq![':'] + r2;
    assert(s =~= p1 + r1);
    assert(s =~= p2 + r2);
    assert(s =~= p3 + r3);
    assert(s =~= p4 + r4);
    lemma_parse_string_round_trip(pre, "id"@, r1);
    assert(parse_string(s, i) == Some(("id"@, p1.len() as int)));
    assert(s[p1.len() as int] == ':');
    lemma_ws_end_here(s, p1.len() as int);
    lemma_parse_string_round_trip(p2, a.id, r3);
    assert(parse_string(s, p2.len() as int) == Some((a.id, p3.len() as int)));
    lemma_ws_end_here(s, p2.len() as int);
    assert(s[p3.len() as int] == ',');
    lemma_ws_end_here(s, p3.len() as int);
    lemma_adv_members_summary(p4, a.id, a.summary, a.details, a.severity, rest);
    assert(p4 + json_quoted("summary"@) + seq![':'] + enc_opt_str(a.summary) + seq![',']
        + json_quoted("details"@) + seq![':'] + enc_opt_str(a.details) + seq![','] + json_quoted(
        "severity"@,
    ) + seq![':'] + enc_sev_array(a.severity) + seq!['}'] + rest =~= s);
    assert(s[p4.len() as int] == '"');
    lemma_ws_end_here(s, p4.len() as int);
    assert(AdvisoryView { id: a.id, summary: a.summary, details: a.details, severity: a.severity }
        == a);
    assert(adv_members(s, i, None, None, None, None) == adv_members(
        s,
        p4.len() as int,
        Some(a.id),
        None,
        None,
        None,
    ));
}

/// Parsing an advisory object at the start of `enc_adv(a) + rest` yields
/// exactly `a`.
#[verifier::rlimit(100)]
pub proof fn lemma_parse_advisory_round_trip(pre: Seq<char>, a: AdvisoryView, rest: Seq<char>)
    ensures
        parse_advisory(pre + enc_adv(a) + rest, pre.len() as int) == Some(
            (a, (pre.len() + enc_adv(a).len()) as int),
        ),
{
    reveal(enc_adv);
    reveal(parse_advisory);
    let s = pre + enc_adv(a) + rest;
    let i = pre.len() as int;
    let p0 = pre + seq!['{'];
    lemma_adv_members_id(p0, a, rest);
    assert(p0 + json_quoted("id"@) + seq![':'] + json_quoted(a.id) + seq![','] + json_quoted(
        "summary"@,
    ) + seq![':'] + enc_opt_str(a.summary) + seq![','] + json_quoted("details"@) + seq![':']
        + enc_opt_str(a.details) + seq![','] + json_quoted("severity"@) + seq![':'] + enc_sev_array(
        a.severity,
    ) + seq!['}'] + rest =~= s);
    assert(s[i] == '{');
    assert(s[i + 1] == '"');
    lemma_ws_end_here(s, i + 1);
    assert(parse_advisory(s, i) == adv_members(s, i + 1, None, None, None, None));
}


/// The canonical encoding of the items of the advisory array.
pub open spec fn enc_adv_items(advs: Seq<AdvisoryView>) -> Seq<char>
    decreases advs.len(),
{
    if advs.len() == 0 {
        Seq::empty()
    } else if advs.len() == 1 {
        enc_adv(advs[0])
    } else {
        enc_adv_items(advs.drop_last()) + seq![','] + enc_adv(advs.last())
    }
}

/// The canonical encoding of the advisory array.
pub open spec fn enc_adv_array(advs: Seq<AdvisoryView>) -> Seq<char> {
    seq!['['] + enc_adv_items(advs) + seq![']']
}

/// The encoded items of a non-empty advisory array start with the first
/// item's encoding.
pub proof fn lemma_enc_adv_items_cons(advs: Seq<AdvisoryView>)
    requires
        advs.len() > 0,
    ensures
        advs.len() == 1 ==> enc_adv_items(advs) == enc_adv(advs[0]),
        advs.len() > 1 ==> enc_adv_items(advs) == enc_adv(advs[0]) + seq![','] + enc_adv_items(
            advs.subrange(1, advs.len() as int),
        ),
    decreases advs.len(),
{
    if advs.len() <= 1 {
    } else if advs.len() == 2 {
        let t = advs.subrange(1, advs.len() as int);
        assert(advs.drop_last() =~= seq![advs[0]]);
        assert(t =~= seq![advs[1]]);
        assert(enc_adv_items(advs) == enc_adv_items(advs.drop_last()) + seq![','] + enc_adv(
            advs.last(),
        ));
        assert(enc_adv_items(seq![advs[0]]) == enc_adv(advs[0]));
        assert(enc_adv_items(t) == enc_adv(t[0]));
        assert(t[0] == advs[1]);
        assert(enc_adv_items(advs) =~= enc_adv(advs[0]) + seq![','] + enc_adv_items(t));
    } else {
        let y = advs.drop_last();
        lemma_enc_adv_items_cons(y);
        let t = advs.subrange(1, advs.len() as int);
        assert(t.drop_last() =~= y.subrange(1, y.len() as int));
        assert(t.last() == advs.last());
        assert(t.len() > 1);
        assert(enc_adv_items(t) == enc_adv_items(t.drop_last()) + seq![','] + enc_adv(t.last()));
        assert(enc_adv_items(advs) == enc_adv_items(y) + seq![','] + enc_adv(advs.last()));
        assert(advs[0] == y[0]);
        assert(enc_adv_items(advs) =~= enc_adv(advs[0]) + seq![','] + enc_adv_items(t));
    }
}

/// An encoded advisory starts with an opening brace.
pub proof fn lemma_enc_adv_head(a: AdvisoryView)
    ensures
        enc_adv(a).len() > 0,
        enc_adv(a)[0] == '{',
{
    reveal(enc_adv);
    assert(enc_adv(a)[0] == '{');
}

/// The encoded items of a non-empty advisory array start with an opening
/// brace.
pub proof fn lemma_enc_adv_items_head(advs: Seq<AdvisoryView>)
    requires
        advs.len() > 0,
    ensures
        enc_adv_items(advs).len() > 0,
        enc_adv_items(advs)[0] == '{',
{
    lemma_enc_adv_items_cons(advs);
    lemma_enc_adv_head(advs[0]);
    if advs.len() > 1 {
        assert(enc_adv_items(advs)[0] == enc_adv(advs[0])[0]);
    }
}

/// Walking the last item of the encoded advisory array.
#[verifier::rlimit(100)]
pub proof fn lemma_adv_items_last(
    pre: Seq<char>,
    a: AdvisoryView,
    acc: Seq<AdvisoryView>,
    rest: Seq<char>,
)
    ensures
        adv_items(pre + enc_adv(a) + seq![']'] + rest, pre.len() as int, acc) == Some(
            (acc.push(a), (pre.len() + enc_adv(a).len() + 1) as int),
        ),
{
    let s = pre + enc_adv(a) + seq![']'] + rest;
    let i = pre.len() as int;
    lemma_parse_advisory_round_trip(pre, a, seq![']'] + rest);
    assert(pre + enc_adv(a) + (seq![']'] + rest) =~= s);
    let p1 = (pre.len() + enc_adv(a).len()) as int;
    assert(parse_advisory(s, i) == Some((a, p1)));
    assert(s =~= (pre + enc_adv(a)) + (seq![']'] + rest));
    assert(s[p1] == ']');
    lemma_ws_end_here(s, p1);
}

/// Walking one item of the encoded advisory array followed by a comma steps
/// to the next item with the item appended.
#[verifier::rlimit(100)]
pub proof fn lemma_adv_items_step(
    pre: Seq<char>,
    a: AdvisoryView,
    acc: Seq<AdvisoryView>,
    tail: Seq<char>,
)
    requires
        tail.len() > 0,
        tail[0] == '{',
    ensures
        adv_items(pre + enc_adv(a) + seq![','] + tail, pre.len() as int, acc) == adv_items(
            pre + enc_adv(a) + seq![','] + tail,
            (pre.len() + enc_adv(a).len() + 1) as int,
            acc.push(a),
        ),
{
    let s = pre + enc_adv(a) + seq![','] + tail;
    let i = pre.len() as int;
    lemma_parse_advisory_round_trip(pre, a, seq![','] + tail);
    assert(pre + enc_adv(a) + (seq![','] + tail) =~= s);
    let p1 = (pre.len() + enc_adv(a).len()) as int;
    assert(parse_advisory(s, i) == Some((a, p1)));
    assert(s =~= (pre + enc_adv(a)) + (seq![','] + tail));
    assert(s[p1] == ',');
    lemma_ws_end_here(s, p1);
    assert(s =~= (pre + enc_adv(a) + seq![',']) + tail);
    assert(s[p1 + 1] == '{');
    lemma_ws_end_here(s, p1 + 1);
}

/// Walking the items of the encoded advisory array appends exactly those
/// items, in order.
#[verifier::rlimit(100)]
pub proof fn lemma_adv_items_round_trip(
    pre: Seq<char>,
    advs: Seq<AdvisoryView>,
    acc: Seq<AdvisoryView>,
    rest: Seq<char>,
)
    requires
        advs.len() > 0,
    ensures
        adv_items(pre + enc_adv_items(advs) + seq![']'] + rest, pre.len() as int, acc) == Some(
            (acc + advs, (pre.len() + enc_adv_items(advs).len() + 1) as int),
        ),
    decreases advs.len(),
{
    let s = pre + enc_adv_items(advs) + seq![']'] + rest;
    lemma_enc_adv_items_cons(advs);
    if advs.len() == 1 {
        lemma_adv_items_last(pre, advs[0], acc, rest);
        assert(pre + enc_adv(advs[0]) + seq![']'] + rest =~= s);
        assert(acc.push(advs[0]) =~= acc + advs);
    } else {
        let t = advs.subrange(1, advs.len() as int);
        let tail = enc_adv_items(t) + seq![']'] + rest;
        lemma_enc_adv_items_head(t);
        assert(tail[0] == '{');
        lemma_adv_items_step(pre, advs[0], acc, tail);
        assert(pre + enc_adv(advs[0]) + seq![','] + tail =~= s);
        let p2 = pre + enc_adv(advs[0]) + seq![','];
        lemma_adv_items_round_trip(p2, t, acc.push(advs[0]), rest);
        assert(p2 + enc_adv_items(t) + seq![']'] + rest =~= s);
        assert(acc.push(advs[0]) + t =~= acc + advs);
    }
}

/// Parsing the advisory array at the start of `enc_adv_array(advs) + rest`
/// yields exactly `advs`.
#[verifier::rlimit(100)]
pub proof fn lemma_parse_adv_array_round_trip(
    pre: Seq<char>,
    advs: Seq<AdvisoryView>,
    rest: Seq<char>,
)
    ensures
        parse_adv_array(pre + enc_adv_array(advs) + rest, pre.len() as int) == Some(
            (advs, (pre.len() + enc_adv_array(advs).len()) as int),
        ),
{
    let s = pre + enc_adv_array(advs) + rest;
    let i = pre.len() as int;
    let p0 = pre + seq!['['];
    assert(s =~= p0 + (enc_adv_items(advs) + seq![']'] + rest));
    assert(s[i] == '[');
    if advs.len() == 0 {
        assert(enc_adv_items(advs) =~= Seq::<char>::empty());
        assert(s =~= p0 + (seq![']'] + rest));
        assert(s[i + 1] == ']');
        lemma_ws_end_here(s, i + 1);
        assert(Seq::<AdvisoryView>::empty() =~= advs);
    } else {
        lemma_enc_adv_items_head(advs);
        assert(s[i + 1] == '{');
        lemma_ws_end_here(s, i + 1);
        lemma_adv_items_round_trip(p0, advs, Seq::empty(), rest);
        assert(p0 + enc_adv_items(advs) + seq![']'] + rest =~= s);
        assert(Seq::<AdvisoryView>::empty() + advs =~= advs);
    }
}


// ---------------------------------------------------------------------------
// the whole response
// ---------------------------------------------------------------------------

/// The canonical encoding of a whole service response.
pub open spec fn spec_service_response(advs: Seq<AdvisoryView>) -> Seq<char> {
    seq!['{'] + json_quoted("vulns"@) + seq![':'] + enc_adv_array(advs) + seq!['}']
}

/// Walking the members of the response object from its `vulns` member.
#[verifier::rlimit(100)]
pub proof fn lemma_resp_members_vulns(pre: Seq<char>, advs: Seq<AdvisoryView>, rest: Seq<char>)
    ensures
        resp_members(
            pre + json_quoted("vulns"@) + seq![':'] + enc_adv_array(advs) + seq!['}'] + rest,
            pre.len() as int,
            None,
        ) == Some(
            (
                advs,
                (pre.len() + json_quoted("vulns"@).len() + 1 + enc_adv_array(advs).len()
                    + 1) as int,
            ),
        ),
{
    reveal_strlit("vulns");
    assert("vulns"@.len() == 5);
    let seg_k = json_quoted("vulns"@);
    let seg_v = enc_adv_array(advs);
    let s = pre + seg_k + seq![':'] + seg_v + seq!['}'] + rest;
    let i = pre.len() as int;
    let p1 = pre + seg_k;
    let p2 = p1 + seq![':'];
    let p3 = p2 + seg_v;
    let r3 = seq!['}'] + rest;
    let r2 = seg_v + r3;
    let r1 = seq![':'] + r2;
    assert(s =~= p1 + r1);
    assert(s =~= p2 + r2);
    assert(s =~= p3 + r3);
    lemma_parse_string_round_trip(pre, "vulns"@, r1);
    assert(parse_string(s, i) == Some(("vulns"@, p1.len() as int)));
    assert(s[p1.len() as int] == ':');
    lemma_ws_end_here(s, p1.len() as int);
    assert(seg_v[0] == '[');
    assert(s[p2.len() as int] == '[');
    lemma_ws_end_here(s, p2.len() as int);
    assert(!is_null_at(s, p2.len() as int));
    lemma_parse_adv_array_round_trip(p2, advs, r3);
    assert(parse_adv_array(s, p2.len() as int) == Some((advs, p3.len() as int)));
    assert(s[p3.len() as int] == '}');
    lemma_ws_end_here(s, p3.len() as int);
    assert(resp_members(s, i, None) == Some((advs, (p3.len() + 1) as int)));
}

/// Decoding the canonical encoding of a service response yields exactly its
/// advisories, and the lite projection keeps each advisory's id, so the
/// re-encoded output lists the same ids in the same order.
#[verifier::rlimit(100)]
pub proof fn lemma_response_round_trip(advs: Seq<AdvisoryView>)
    ensures
        spec_parse_response(spec_service_response(advs)) == Some(advs),
        forall|i: int| 0 <= i < advs.len() ==> #[trigger] spec_lite(advs[i]).id == advs[i].id,
{
    let s = spec_service_response(advs);
    let p0 = seq!['{'];
    lemma_resp_members_vulns(p0, advs, Seq::empty());
    assert(p0 + json_quoted("vulns"@) + seq![':'] + enc_adv_array(advs) + seq!['}']
        + Seq::<char>::empty() =~= s);
    assert(s[0] == '{');
    lemma_ws_end_here(s, 0);
    assert(s[1] == '"');
    lemma_ws_end_here(s, 1);
    let end = (1 + json_quoted("vulns"@).len() + 1 + enc_adv_array(advs).len() + 1) as int;
    assert(resp_members(s, 1, None) == Some((advs, end)));
    assert(end == s.len());
    lemma_ws_end_here(s, end);
    assert(spec_parse_response(s) == Some(advs));
}

} // verus!








