//! Rendering to JSON text: escaping, the OSV query document, and the three
//! output formats (table lines, pretty JSON, single-line JSON). Every
//! function returns exactly the character sequence its spec names, so output
//! is a pure function of its input.

use vstd::prelude::*;
use crate::ecosystem::{Ecosystem, wire_view};
use crate::model::{VulnLite, LiteView, OsvAdvisory, OsvResponse, AdvisoryView, spec_best_severity, opt_str_view};
use crate::text::string_from_chars;

verus! {

/// The lower-case hexadecimal digit character for `n`.
pub open spec fn hex_char(n: int) -> char {
    if n == 0 {
        '0'
    } else if n == 1 {
        '1'
    } else if n == 2 {
        '2'
    } else if n == 3 {
        '3'
    } else if n == 4 {
        '4'
    } else if n == 5 {
        '5'
    } else if n == 6 {
        '6'
    } else if n == 7 {
        '7'
    } else if n == 8 {
        '8'
    } else if n == 9 {
        '9'
    } else if n == 10 {
        'a'
    } else if n == 11 {
        'b'
    } else if n == 12 {
        'c'
    } else if n == 13 {
        'd'
    } else if n == 14 {
        'e'
    } else {
        'f'
    }
}

/// How one character appears inside a JSON string literal: quote and
/// backslash get a backslash escape, the common control characters get their
/// short escapes, other control characters get a `\u00..` escape, and
/// everything else stands as itself.
pub open spec fn json_escape_char(c: char) -> Seq<char> {
    let v = c as u32;
    if v == 34 {
        seq!['\\', '"']
    } else if v == 92 {
        seq!['\\', '\\']
    } else if v == 8 {
        seq!['\\', 'b']
    } else if v == 12 {
        seq!['\\', 'f']
    } else if v == 10 {
        seq!['\\', 'n']
    } else if v == 13 {
        seq!['\\', 'r']
    } else if v == 9 {
        seq!['\\', 't']
    } else if v < 32 {
        seq!['\\', 'u', '0', '0', hex_char(v as int / 16), hex_char(v as int % 16)]
    } else {
        seq![c]
    }
}

/// The body of a JSON string literal for `s`: each character escaped.
pub open spec fn json_escape(s: Seq<char>) -> Seq<char>
    decreases s.len(),
{
    if s.len() == 0 {
        Seq::empty()
    } else {
        json_escape(s.drop_last()) + json_escape_char(s.last())
    }
}

/// The JSON string literal for `s`, quotes included.
pub open spec fn json_quoted(s: Seq<char>) -> Seq<char> {
    seq!['"'] + json_escape(s) + seq!['"']
}

fn hex_digit(n: u32) -> (c: char)
    requires
        n < 16,
    ensures
        c == hex_char(n as int),
{
    match n {
        0 => '0',
        1 => '1',
        2 => '2',
        3 => '3',
        4 => '4',
        5 => '5',
        6 => '6',
        7 => '7',
        8 => '8',
        9 => '9',
        10 => 'a',
        11 => 'b',
        12 => 'c',
        13 => 'd',
        14 => 'e',
        _ => 'f',
    }
}

fn push_escape_char(out: &mut Vec<char>, c: char)
    ensures
        final(out)@ == old(out)@ + json_escape_char(c),
{
    let v = c as u32;
    if v == 34 {
        out.push('\\');
        out.push('"');
    } else if v == 92 {
        out.push('\\');
        out.push('\\');
    } else if v == 8 {
        out.push('\\');
        out.push('b');
    } else if v == 12 {
        out.push('\\');
        out.push('f');
    } else if v == 10 {
        out.push('\\');
        out.push('n');
    } else if v == 13 {
        out.push('\\');
        out.push('r');
    } else if v == 9 {
        out.push('\\');
        out.push('t');
    } else if v < 32 {
        out.push('\\');
        out.push('u');
        out.push('0');
        out.push('0');
        out.push(hex_digit(v / 16));
        out.push(hex_digit(v % 16));
    } else {
        out.push(c);
    }
    proof {
        assert(out@ =~= old(out)@ + json_escape_char(c));
    }
}

/// Appends the characters of `s`, unescaped.
fn push_str_chars(out: &mut Vec<char>, s: &str)
    ensures
        final(out)@ == old(out)@ + s@,
{
    let n = s.unicode_len();
    let mut i: usize = 0;
    proof {
        assert(out@ =~= old(out)@ + s@.subrange(0, 0));
    }
    while i < n
        invariant
            n == s@.len(),
            i <= n,
            out@ == old(out)@ + s@.subrange(0, i as int),
        decreases n - i,
    {
        out.push(s.get_char(i));
        i += 1;
        proof {
            assert(out@ =~= old(out)@ + s@.subrange(0, i as int));
        }
    }
    proof {
        assert(s@.subrange(0, n as int) =~= s@);
    }
}

/// Appends the escaped body of a JSON string literal for `s`.
fn push_escaped(out: &mut Vec<char>, s: &str)
    ensures
        final(out)@ == old(out)@ + json_escape(s@),
{
    let n = s.unicode_len();
    let mut i: usize = 0;
    proof {
        assert(out@ =~= old(out)@ + json_escape(s@.subrange(0, 0)));
    }
    while i < n
        invariant
            n == s@.len(),
            i <= n,
            out@ == old(out)@ + json_escape(s@.subrange(0, i as int)),
        decreases n - i,
    {
        let c = s.get_char(i);
        push_escape_char(out, c);
        i += 1;
        proof {
            let pre = s@.subrange(0, i as int);
            assert(pre.drop_last() =~= s@.subrange(0, i - 1));
            assert(pre.last() == s@[i - 1]);
            assert(out@ =~= old(out)@ + json_escape(pre));
        }
    }
    proof {
        assert(s@.subrange(0, n as int) =~= s@);
    }
}

/// Appends the JSON string literal for `s`, quotes included.
fn push_quoted(out: &mut Vec<char>, s: &str)
    ensures
        final(out)@ == old(out)@ + json_quoted(s@),
{
    out.push('"');
    push_escaped(out, s);
    out.push('"');
    proof {
        assert(out@ =~= old(out)@ + json_quoted(s@));
    }
}

/// The OSV query document for one package. The `version` key is present
/// exactly when a version filter was given; when absent it is omitted
/// entirely, never serialized as null.
pub open spec fn spec_query_body(
    name: Seq<char>,
    eco: Ecosystem,
    version: Option<Seq<char>>,
) -> Seq<char> {
    let base = "{\"package\":{\"name\":"@ + json_quoted(name) + ",\"ecosystem\":"@ + json_quoted(
        wire_view(eco),
    ) + "}"@;
    match version {
        None => base + "}"@,
        Some(v) => base + ",\"version\":"@ + json_quoted(v) + "}"@,
    }
}

/// Builds the JSON body of one OSV query.
pub fn build_query_body(name: &str, eco: Ecosystem, version: Option<&str>) -> (r: String)
    ensures
        r@ == spec_query_body(name@, eco, opt_str_view(version)),
{
    let mut out: Vec<char> = Vec::new();
    push_str_chars(&mut out, "{\"package\":{\"name\":");
    push_quoted(&mut out, name);
    push_str_chars(&mut out, ",\"ecosystem\":");
    push_quoted(&mut out, eco.as_str());
    push_str_chars(&mut out, "}");
    match version {
        None => {
            push_str_chars(&mut out, "}");
        },
        Some(v) => {
            push_str_chars(&mut out, ",\"version\":");
            push_quoted(&mut out, v);
            push_str_chars(&mut out, "}");
        },
    }
    proof {
        assert(out@ =~= spec_query_body(name@, eco, opt_str_view(version)));
    }
    string_from_chars(&out)
}

/// One lite advisory as a compact JSON object; `summary` and `severity`
/// are omitted entirely when absent.
pub open spec fn spec_lite_json(v: LiteView) -> Seq<char> {
    "{\"id\":"@ + json_quoted(v.id) + (match v.summary {
        Some(s) => ",\"summary\":"@ + json_quoted(s),
        None => Seq::empty(),
    }) + (match v.severity {
        Some(s) => ",\"severity\":"@ + json_quoted(s),
        None => Seq::empty(),
    }) + "}"@
}

fn push_lite_json(out: &mut Vec<char>, v: &VulnLite)
    ensures
        final(out)@ == old(out)@ + spec_lite_json(v@),
{
    push_str_chars(out, "{\"id\":");
    push_quoted(out, v.id.as_str());
    match &v.summary {
        Some(s) => {
            push_str_chars(out, ",\"summary\":");
            push_quoted(out, s.as_str());
        },
        None => {},
    }
    match &v.severity {
        Some(s) => {
            push_str_chars(out, ",\"severity\":");
            push_quoted(out, s.as_str());
        },
        None => {},
    }
    push_str_chars(out, "}");
    proof {
        assert(out@ =~= old(out)@ + spec_lite_json(v@));
    }
}

/// The comma-separated compact JSON objects for a sequence of lite
/// advisories, in order.
pub open spec fn spec_lite_items(vs: Seq<LiteView>) -> Seq<char>
    decreases vs.len(),
{
    if vs.len() == 0 {
        Seq::empty()
    } else if vs.len() == 1 {
        spec_lite_json(vs[0])
    } else {
        spec_lite_items(vs.drop_last()) + ","@ + spec_lite_json(vs.last())
    }
}

/// The compact JSON array of lite advisories.
pub open spec fn spec_lite_array(vs: Seq<LiteView>) -> Seq<char> {
    "["@ + spec_lite_items(vs) + "]"@
}

pub open spec fn lites_view(vs: Seq<VulnLite>) -> Seq<LiteView> {
    vs.map_values(|v: VulnLite| v@)
}

fn push_lite_array(out: &mut Vec<char>, vs: &Vec<VulnLite>)
    ensures
        final(out)@ == old(out)@ + spec_lite_array(lites_view(vs@)),
{
    push_str_chars(out, "[");
    let n = vs.len();
    let mut i: usize = 0;
    proof {
        assert(out@ =~= old(out)@ + "["@ + spec_lite_items(lites_view(vs@.subrange(0, 0))));
    }
    while i < n
        invariant
            n == vs@.len(),
            i <= n,
            out@ == old(out)@ + "["@ + spec_lite_items(lites_view(vs@.subrange(0, i as int))),
        decreases n - i,
    {
        if i > 0 {
            push_str_chars(out, ",");
        }
        push_lite_json(out, &vs[i]);
        i += 1;
        proof {
            let pre = lites_view(vs@.subrange(0, i as int));
            assert(pre.drop_last() =~= lites_view(vs@.subrange(0, i - 1)));
            assert(pre.last() == vs@[i - 1]@);
            assert(out@ =~= old(out)@ + "["@ + spec_lite_items(pre));
        }
    }
    push_str_chars(out, "]");
    proof {
        assert(vs@.subrange(0, n as int) =~= vs@);
        assert(out@ =~= old(out)@ + spec_lite_array(lites_view(vs@)));
    }
}

/// The single-line JSON object for one invocation's result: package,
/// ecosystem wire name, the version when one was given (omitted otherwise),
/// and the lite advisories in service order.
pub open spec fn spec_render_ndjson(
    pkg: Seq<char>,
    eco: Ecosystem,
    version: Option<Seq<char>>,
    vs: Seq<LiteView>,
) -> Seq<char> {
    "{\"package\":"@ + json_quoted(pkg) + ",\"ecosystem\":"@ + json_quoted(wire_view(eco))
        + (match version {
        Some(v) => ",\"version\":"@ + json_quoted(v),
        None => Seq::empty(),
    }) + ",\"vulns\":"@ + spec_lite_array(vs) + "}"@
}

/// Renders the single-line JSON output.
pub fn render_ndjson(
    pkg: &str,
    eco: Ecosystem,
    version: Option<&str>,
    vulns: &Vec<VulnLite>,
) -> (r: String)
    ensures
        r@ == spec_render_ndjson(pkg@, eco, opt_str_view(version), lites_view(vulns@)),
{
    let mut out: Vec<char> = Vec::new();
    push_str_chars(&mut out, "{\"package\":");
    push_quoted(&mut out, pkg);
    push_str_chars(&mut out, ",\"ecosystem\":");
    push_quoted(&mut out, eco.as_str());
    match version {
        Some(v) => {
            push_str_chars(&mut out, ",\"version\":");
            push_quoted(&mut out, v);
        },
        None => {},
    }
    push_str_chars(&mut out, ",\"vulns\":");
    push_lite_array(&mut out, vulns);
    push_str_chars(&mut out, "}");
    proof {
        assert(out@ =~= spec_render_ndjson(pkg@, eco, opt_str_view(version), lites_view(vulns@)));
    }
    string_from_chars(&out)
}

/// One lite advisory as a pretty-printed JSON object, indented for its place
/// inside the `vulns` array.
pub open spec fn spec_lite_pretty(v: LiteView) -> Seq<char> {
    "    {\n      \"id\": "@ + json_quoted(v.id) + (match v.summary {
        Some(s) => ",\n      \"summary\": "@ + json_quoted(s),
        None => Seq::empty(),
    }) + (match v.severity {
        Some(s) => ",\n      \"severity\": "@ + json_quoted(s),
        None => Seq::empty(),
    }) + "\n    }"@
}

fn push_lite_pretty(out: &mut Vec<char>, v: &VulnLite)
    ensures
        final(out)@ == old(out)@ + spec_lite_pretty(v@),
{
    push_str_chars(out, "    {\n      \"id\": ");
    push_quoted(out, v.id.as_str());
    match &v.summary {
        Some(s) => {
            push_str_chars(out, ",\n      \"summary\": ");
            push_quoted(out, s.as_str());
        },
        None => {},
    }
    match &v.severity {
        Some(s) => {
            push_str_chars(out, ",\n      \"severity\": ");
            push_quoted(out, s.as_str());
        },
        None => {},
    }
    push_str_chars(out, "\n    }");
    proof {
        assert(out@ =~= old(out)@ + spec_lite_pretty(v@));
    }
}

/// The pretty-printed advisory objects, joined by a comma and newline.
pub open spec fn spec_lite_pretty_items(vs: Seq<LiteView>) -> Seq<char>
    decreases vs.len(),
{
    if vs.len() == 0 {
        Seq::empty()
    } else if vs.len() == 1 {
        spec_lite_pretty(vs[0])
    } else {
        spec_lite_pretty_items(vs.drop_last()) + ",\n"@ + spec_lite_pretty(vs.last())
    }
}

/// The pretty-printed JSON array of lite advisories: `[]` when empty, one
/// object per line otherwise.
pub open spec fn spec_lite_pretty_array(vs: Seq<LiteView>) -> Seq<char> {
    if vs.len() == 0 {
        "[]"@
    } else {
        "[\n"@ + spec_lite_pretty_items(vs) + "\n  ]"@
    }
}

fn push_lite_pretty_array(out: &mut Vec<char>, vs: &Vec<VulnLite>)
    ensures
        final(out)@ == old(out)@ + spec_lite_pretty_array(lites_view(vs@)),
{
    let n = vs.len();
    if n == 0 {
        push_str_chars(out, "[]");
        proof {
            assert(out@ =~= old(out)@ + spec_lite_pretty_array(lites_view(vs@)));
        }
        return ;
    }
    push_str_chars(out, "[\n");
    let mut i: usize = 0;
    proof {
        assert(out@ =~= old(out)@ + "[\n"@ + spec_lite_pretty_items(
            lites_view(vs@.subrange(0, 0)),
        ));
    }
    while i < n
        invariant
            n == vs@.len(),
            i <= n,
            out@ == old(out)@ + "[\n"@ + spec_lite_pretty_items(lites_view(vs@.subrange(0, i as int))),
        decreases n - i,
    {
        if i > 0 {
            push_str_chars(out, ",\n");
        }
        push_lite_pretty(out, &vs[i]);
        i += 1;
        proof {
            let pre = lites_view(vs@.subrange(0, i as int));
            assert(pre.drop_last() =~= lites_view(vs@.subrange(0, i - 1)));
            assert(pre.last() == vs@[i - 1]@);
            assert(out@ =~= old(out)@ + "[\n"@ + spec_lite_pretty_items(pre));
        }
    }
    push_str_chars(out, "\n  ]");
    proof {
        assert(vs@.subrange(0, n as int) =~= vs@);
        assert(out@ =~= old(out)@ + spec_lite_pretty_array(lites_view(vs@)));
    }
}

/// The pretty-printed JSON object for one invocation's result: same fields
/// and order as the single-line form, indented by two spaces per level.
pub open spec fn spec_render_json(
    pkg: Seq<char>,
    eco: Ecosystem,
    version: Option<Seq<char>>,
    vs: Seq<LiteView>,
) -> Seq<char> {
    "{\n  \"package\": "@ + json_quoted(pkg) + ",\n  \"ecosystem\": "@ + json_quoted(
        wire_view(eco),
    ) + (match version {
        Some(v) => ",\n  \"version\": "@ + json_quoted(v),
        None => Seq::empty(),
    }) + ",\n  \"vulns\": "@ + spec_lite_pretty_array(vs) + "\n}"@
}

/// Renders the pretty-printed JSON output.
pub fn render_json(
    pkg: &str,
    eco: Ecosystem,
    version: Option<&str>,
    vulns: &Vec<VulnLite>,
) -> (r: String)
    ensures
        r@ == spec_render_json(pkg@, eco, opt_str_view(version), lites_view(vulns@)),
{
    let mut out: Vec<char> = Vec::new();
    push_str_chars(&mut out, "{\n  \"package\": ");
    push_quoted(&mut out, pkg);
    push_str_chars(&mut out, ",\n  \"ecosystem\": ");
    push_quoted(&mut out, eco.as_str());
    match version {
        Some(v) => {
            push_str_chars(&mut out, ",\n  \"version\": ");
            push_quoted(&mut out, v);
        },
        None => {},
    }
    push_str_chars(&mut out, ",\n  \"vulns\": ");
    push_lite_pretty_array(&mut out, vulns);
    push_str_chars(&mut out, "\n}");
    proof {
        assert(out@ =~= spec_render_json(pkg@, eco, opt_str_view(version), lites_view(vulns@)));
    }
    string_from_chars(&out)
}

/// The table line for one advisory: its id, its best severity (or `-`), and
/// its summary (or `-`).
pub open spec fn spec_table_advisory_line(a: AdvisoryView) -> Seq<char> {
    "\u{2022} "@ + a.id + " ["@ + (match spec_best_severity(a) {
        Some(s) => s,
        None => "-"@,
    }) + "] "@ + (match a.summary {
        Some(s) => s,
        None => "-"@,
    })
}

/// The table-format output, one line per element: the banner, the package
/// line (with the version when one was given), then either the single
/// no-vulnerabilities line or the `Vulnerabilities:` heading followed by one
/// line per advisory in service order.
pub open spec fn spec_table_lines(
    pkg: Seq<char>,
    eco: Ecosystem,
    version: Option<Seq<char>>,
    advs: Seq<AdvisoryView>,
) -> Seq<Seq<char>> {
    let header = seq![
        "vulntrix \u{2014} OSV results"@,
        "Package: "@ + pkg + "  Ecosystem: "@ + wire_view(eco) + (match version {
            Some(v) => "  Version: "@ + v,
            None => Seq::empty(),
        }),
    ];
    if advs.len() == 0 {
        header + seq!["No vulnerabilities found."@]
    } else {
        header + seq!["Vulnerabilities:"@] + advs.map_values(|a: AdvisoryView| spec_table_advisory_line(a))
    }
}

fn table_advisory_line(a: &OsvAdvisory) -> (r: String)
    ensures
        r@ == spec_table_advisory_line(a@),
{
    let mut out: Vec<char> = Vec::new();
    push_str_chars(&mut out, "\u{2022} ");
    push_str_chars(&mut out, a.id.as_str());
    push_str_chars(&mut out, " [");
    match a.best_severity() {
        Some(s) => push_str_chars(&mut out, s),
        None => push_str_chars(&mut out, "-"),
    }
    push_str_chars(&mut out, "] ");
    match &a.summary {
        Some(s) => push_str_chars(&mut out, s.as_str()),
        None => push_str_chars(&mut out, "-"),
    }
    proof {
        assert(out@ =~= spec_table_advisory_line(a@));
    }
    string_from_chars(&out)
}

/// Renders the table output as its lines, in order.
pub fn render_table(
    pkg: &str,
    eco: Ecosystem,
    version: Option<&str>,
    resp: &OsvResponse,
) -> (r: Vec<String>)
    ensures
        r@.len() == spec_table_lines(pkg@, eco, opt_str_view(version), resp@).len(),
        forall|j: int|
            0 <= j < r@.len() ==> r@[j]@ == spec_table_lines(
                pkg@,
                eco,
                opt_str_view(version),
                resp@,
            )[j],
{
    let ghost full = spec_table_lines(pkg@, eco, opt_str_view(version), resp@);
    let mut lines: Vec<String> = Vec::new();
    let mut banner: Vec<char> = Vec::new();
    push_str_chars(&mut banner, "vulntrix \u{2014} OSV results");
    lines.push(string_from_chars(&banner));

    let mut pkg_line: Vec<char> = Vec::new();
    push_str_chars(&mut pkg_line, "Package: ");
    push_str_chars(&mut pkg_line, pkg);
    push_str_chars(&mut pkg_line, "  Ecosystem: ");
    push_str_chars(&mut pkg_line, eco.as_str());
    match version {
        Some(v) => {
            push_str_chars(&mut pkg_line, "  Version: ");
            push_str_chars(&mut pkg_line, v);
        },
        None => {},
    }
    lines.push(string_from_chars(&pkg_line));

    let n = resp.vulns.len();
    if n == 0 {
        let mut none_line: Vec<char> = Vec::new();
        push_str_chars(&mut none_line, "No vulnerabilities found.");
        lines.push(string_from_chars(&none_line));
        proof {
            assert(lines@[0]@ == full[0]);
            assert(lines@[1]@ =~= full[1]);
            assert(lines@[2]@ == full[2]);
        }
        return lines;
    }
    let mut heading: Vec<char> = Vec::new();
    push_str_chars(&mut heading, "Vulnerabilities:");
    lines.push(string_from_chars(&heading));
    proof {
        assert(full.len() == 3 + n);
        assert(lines@[0]@ == full[0]);
        assert(lines@[1]@ =~= full[1]);
        assert(lines@[2]@ == full[2]);
    }

    let mut i: usize = 0;
    while i < n
        invariant
            n == resp.vulns@.len(),
            i <= n,
            full == spec_table_lines(pkg@, eco, opt_str_view(version), resp@),
            full.len() == 3 + n,
            lines@.len() == 3 + i,
            forall|j: int| 0 <= j < 3 + i ==> lines@[j]@ == full[j],
        decreases n - i,
    {
        lines.push(table_advisory_line(&resp.vulns[i]));
        i += 1;
        proof {
            assert(resp@[i - 1] == resp.vulns@[i - 1]@);
            assert(full[3 + i - 1] == spec_table_advisory_line(resp@[i - 1]));
            assert(lines@[3 + i - 1]@ == full[3 + i - 1]);
        }
    }
    lines
}

} // verus!
