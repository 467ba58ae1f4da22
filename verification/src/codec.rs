//! The manifest document format: a verified writer and parser for the
//! JSON document stored as `package.json` in every package directory,
//! together with the round-trip law tying the two.
//!
//! The writer emits one canonical form; the parser accepts exactly that
//! form and re-derives every dependency's `(name, namespace)` slot from
//! its url, so stale derived fields on disk are ignored.

use vstd::prelude::*;

use crate::dependency::derive_remote;
use crate::dependency::Dependencies;
use crate::dependency::Dependency;
use crate::errors::SpmError;
use crate::manifest::dep_model;
use crate::manifest::DepModel;
use crate::manifest::InstallationOptions;
use crate::manifest::Package;
use crate::manifest::PkgModel;
use crate::shell::shell_name;
use crate::shell::ShellType;
use crate::strutil::push_char;

verus! {

/// How one character is written inside a JSON string: quotes and
/// backslashes get a backslash escape, everything else stands as itself.
pub open spec fn esc_char(c: char) -> Seq<char> {
    if c == '"' || c == '\\' {
        seq!['\\', c]
    } else {
        seq![c]
    }
}

/// A whole character sequence escaped for a JSON string.
pub open spec fn esc(s: Seq<char>) -> Seq<char>
    decreases s.len(),
{
    if s.len() == 0 {
        Seq::<char>::empty()
    } else {
        esc_char(s[0]) + esc(s.skip(1))
    }
}

/// Escaping distributes over concatenation.
pub proof fn lemma_esc_append(a: Seq<char>, b: Seq<char>)
    ensures
        esc(a + b) =~= esc(a) + esc(b),
    decreases a.len(),
{
    if a.len() == 0 {
        assert(a + b =~= b);
    } else {
        assert((a + b).skip(1) =~= a.skip(1) + b);
        lemma_esc_append(a.skip(1), b);
        assert(esc(a + b) == esc_char((a + b)[0]) + esc((a + b).skip(1)));
        assert((a + b)[0] == a[0]);
    }
}

/// A quoted, escaped JSON string.
pub open spec fn jstr(s: Seq<char>) -> Seq<char> {
    seq!['"'] + esc(s) + seq!['"']
}

/// A JSON boolean.
pub open spec fn jbool(b: bool) -> Seq<char> {
    if b {
        "true"@
    } else {
        "false"@
    }
}

/// A JSON string or `null`.
pub open spec fn jopt(ns: Option<Seq<char>>) -> Seq<char> {
    match ns {
        Some(s) => jstr(s),
        None => "null"@,
    }
}

/// One dependency object: its persisted url and version.
pub open spec fn jdep(p: (Seq<char>, Seq<char>)) -> Seq<char> {
    "{\"url\":"@ + jstr(p.0) + ",\"version\":"@ + jstr(p.1) + "}"@
}

/// A comma-separated run of dependency objects.
pub open spec fn jdeps(ps: Seq<(Seq<char>, Seq<char>)>) -> Seq<char>
    decreases ps.len(),
{
    if ps.len() == 0 {
        Seq::<char>::empty()
    } else if ps.len() == 1 {
        jdep(ps[0])
    } else {
        jdep(ps[0]) + ","@ + jdeps(ps.skip(1))
    }
}

/// Appending one dependency extends the run with a comma when the run is
/// not empty.
pub proof fn lemma_jdeps_snoc(ps: Seq<(Seq<char>, Seq<char>)>, p: (Seq<char>, Seq<char>))
    ensures
        ps.len() == 0 ==> jdeps(ps.push(p)) =~= jdep(p),
        ps.len() > 0 ==> jdeps(ps.push(p)) =~= jdeps(ps) + ","@ + jdep(p),
    decreases ps.len(),
{
    if ps.len() == 0 {
        assert(ps.push(p)[0] == p);
        assert(jdeps(ps.push(p)) == jdep(p));
    } else {
        lemma_jdeps_snoc(ps.skip(1), p);
        assert(ps.push(p).skip(1) =~= ps.skip(1).push(p));
        assert(ps.push(p)[0] == ps[0]);
        if ps.len() == 1 {
            assert(ps.skip(1).len() == 0);
            assert(jdeps(ps.push(p)) == jdep(ps[0]) + ","@ + jdeps(ps.skip(1).push(p)));
            assert(jdeps(ps) == jdep(ps[0]));
        } else {
            assert(jdeps(ps.push(p)) == jdep(ps[0]) + ","@ + jdeps(ps.skip(1).push(p)));
            assert(jdeps(ps.skip(1).push(p)) =~= jdeps(ps.skip(1)) + ","@ + jdep(p));
            assert(jdeps(ps) == jdep(ps[0]) + ","@ + jdeps(ps.skip(1)));
        }
    }
}

/// The persisted pairs of a dependency sequence.
pub open spec fn dep_pairs(deps: Seq<DepModel>) -> Seq<(Seq<char>, Seq<char>)> {
    deps.map_values(|d: DepModel| (d.url, d.version))
}

/// The canonical manifest document of a manifest model, written as the
/// head key followed by the rest of the document.
pub open spec fn spec_write(m: PkgModel) -> Seq<char> {
    "{\"name\":"@ + (jstr(m.name) + (",\"namespace\":"@ + (jopt(m.namespace) + (
    ",\"description\":"@ + (jstr(m.description) + (",\"version\":"@ + (jstr(m.version) + (
    ",\"interpreter\":"@ + (jstr(shell_name(m.interpreter)) + (",\"is_library\":"@ + (jbool(
        m.is_library,
    ) + (",\"entrypoint\":"@ + (jstr(m.entrypoint) + (",\"install\":{\"setup_script\":"@ + (jstr(
        m.setup_script,
    ) + (",\"register_to_environment_tool\":"@ + (jbool(m.register_to_environment_tool) + (
    "},\"uninstall\":"@ + (jstr(m.uninstall) + (",\"dependencies\":["@ + (jdeps(dep_pairs(m.deps))
        + (seq![']'] + "}"@))))))))))))))))))))))
}

/// Append a quoted, escaped JSON string to the output.
fn append_jstr(out: &mut String, s: &str)
    ensures
        final(out)@ =~= old(out)@ + jstr(s@),
{
    push_char(out, '"');
    let len = s.unicode_len();
    let mut i: usize = 0;
    proof {
        assert(s@.take(0) =~= Seq::<char>::empty());
    }
    while i < len
        invariant
            0 <= i <= len,
            len == s@.len(),
            out@ =~= old(out)@ + seq!['"'] + esc(s@.take(i as int)),
        decreases len - i,
    {
        let c = s.get_char(i);
        if c == '"' || c == '\\' {
            push_char(out, '\\');
            push_char(out, c);
        } else {
            push_char(out, c);
        }
        proof {
            let pre = s@.take(i as int);
            let post = s@.take(i + 1);
            assert(post =~= pre + seq![s@[i as int]]);
            lemma_esc_append(pre, seq![s@[i as int]]);
            assert(esc(seq![s@[i as int]]) =~= esc_char(s@[i as int])) by {
                let c0 = s@[i as int];
                let one = seq![c0];
                assert(one.skip(1) =~= Seq::<char>::empty());
                assert(esc(one) == esc_char(c0) + esc(one.skip(1)));
                assert(esc(Seq::<char>::empty()) =~= Seq::<char>::empty());
                assert(esc_char(c0) + Seq::<char>::empty() =~= esc_char(c0));
            }
            assert(out@ =~= old(out)@ + seq!['"'] + esc(post));
        }
        i += 1;
    }
    push_char(out, '"');
    proof {
        assert(s@.take(len as int) =~= s@);
    }
}

/// A quoted, escaped JSON string as a fresh value.
fn make_jstr(s: &str) -> (r: String)
    ensures
        r@ =~= jstr(s@),
{
    let mut out = String::new();
    append_jstr(&mut out, s);
    out
}

/// A JSON boolean as a fresh value.
fn make_jbool(b: bool) -> (r: String)
    ensures
        r@ =~= jbool(b),
{
    if b {
        "true".to_owned()
    } else {
        "false".to_owned()
    }
}

/// Put a literal in front of a document tail.
fn prepend_lit(lit: &str, rest: String) -> (r: String)
    ensures
        r@ == lit@ + rest@,
{
    let mut s = lit.to_owned();
    s.append(rest.as_str());
    s
}

/// Put a computed piece in front of a document tail.
fn prepend_str(piece: String, rest: String) -> (r: String)
    ensures
        r@ == piece@ + rest@,
{
    let mut s = piece;
    s.append(rest.as_str());
    s
}

/// The comma-separated dependency run as a fresh value.
fn make_jdeps(deps: &Dependencies, Ghost(models): Ghost<Seq<DepModel>>) -> (r: String)
    requires
        models == deps@.map_values(|d: Dependency| dep_model(d)),
    ensures
        r@ =~= jdeps(dep_pairs(models)),
{
    let all = deps.get_all();
    let ghost pairs = dep_pairs(models);
    let mut out = String::new();
    let mut i: usize = 0;
    proof {
        assert(pairs.len() == all@.len());
        assert(pairs.take(0) =~= Seq::<(Seq<char>, Seq<char>)>::empty());
        assert(out@ =~= Seq::<char>::empty() + jdeps(pairs.take(0)));
    }
    let ghost out_before = out@;
    while i < all.len()
        invariant
            0 <= i <= all@.len(),
            pairs.len() == all@.len(),
            pairs == dep_pairs(models),
            models == all@.map_values(|d: Dependency| dep_model(d)),
            out@ =~= jdeps(pairs.take(i as int)),
        decreases all@.len() - i,
    {
        if i > 0 {
            out.append(",");
        }
        let d = &all[i];
        out.append("{\"url\":");
        append_jstr(&mut out, d.url.as_str());
        out.append(",\"version\":");
        append_jstr(&mut out, d.version.as_str());
        out.append("}");
        proof {
            assert(pairs[i as int] == (all@[i as int].url@, all@[i as int].version@));
            assert(pairs.take(i + 1) =~= pairs.take(i as int).push(pairs[i as int]));
            lemma_jdeps_snoc(pairs.take(i as int), pairs[i as int]);
            assert(out@ =~= jdeps(pairs.take(i + 1)));
        }
        i += 1;
    }
    proof {
        assert(pairs.take(pairs.len() as int) =~= pairs);
    }
    out
}

/// Write a manifest in the canonical document form.  The document is
/// assembled back to front so that every piece stands exactly where
/// [`spec_write`] puts it.
pub fn write_manifest(p: &Package) -> (r: String)
    ensures
        r@ == spec_write(p.model()),
{
    let ghost m = p.model();
    let mut t: String = "]}".to_owned();
    proof {
        reveal_strlit("]}");
        reveal_strlit("}");
        assert(t@ =~= seq![']'] + "}"@);
    }
    let t = prepend_str(make_jdeps(&p.dependencies, Ghost(m.deps)), t);
    let t = prepend_lit(",\"dependencies\":[", t);
    let t = prepend_str(make_jstr(p.uninstall.as_str()), t);
    let t = prepend_lit("},\"uninstall\":", t);
    let t = prepend_str(make_jbool(p.install.register_to_environment_tool), t);
    let t = prepend_lit(",\"register_to_environment_tool\":", t);
    let t = prepend_str(make_jstr(p.install.setup_script.as_str()), t);
    let t = prepend_lit(",\"install\":{\"setup_script\":", t);
    let t = prepend_str(make_jstr(p.entrypoint.as_str()), t);
    let t = prepend_lit(",\"entrypoint\":", t);
    let t = prepend_str(make_jbool(p.is_library), t);
    let t = prepend_lit(",\"is_library\":", t);
    let t = prepend_str(make_jstr(p.interpreter.name()), t);
    let t = prepend_lit(",\"interpreter\":", t);
    let t = prepend_str(make_jstr(p.version.as_str()), t);
    let t = prepend_lit(",\"version\":", t);
    let t = prepend_str(make_jstr(p.description.as_str()), t);
    let t = prepend_lit(",\"description\":", t);
    let ns_piece = match &p.namespace {
        Some(ns) => make_jstr(ns.as_str()),
        None => "null".to_owned(),
    };
    proof {
        assert(ns_piece@ =~= jopt(m.namespace));
    }
    let t = prepend_str(ns_piece, t);
    let t = prepend_lit(",\"namespace\":", t);
    let t = prepend_str(make_jstr(p.name.as_str()), t);
    let t = prepend_lit("{\"name\":", t);
    proof {
        assert(t@ == spec_write(m));
    }
    t
}

/// Consume a literal prefix, yielding the remainder.
pub open spec fn expect(s: Seq<char>, lit: Seq<char>) -> Option<Seq<char>> {
    if crate::strutil::starts_with(s, lit) {
        Some(s.skip(lit.len() as int))
    } else {
        None
    }
}

/// A literal prefix is consumed exactly.
pub proof fn lemma_expect(lit: Seq<char>, rest: Seq<char>)
    ensures
        expect(lit + rest, lit) == Some(rest),
{
    let s = lit + rest;
    assert(s.subrange(0, lit.len() as int) =~= lit);
    assert(s.skip(lit.len() as int) =~= rest);
}

/// The whitespace a document may carry between its tokens.
pub open spec fn is_ws(c: char) -> bool {
    c == ' ' || c == '\t' || c == '\n' || c == '\r'
}

/// The sequence with its leading whitespace removed.
pub open spec fn skip_ws(s: Seq<char>) -> Seq<char>
    decreases s.len(),
{
    if s.len() > 0 && is_ws(s[0]) {
        skip_ws(s.skip(1))
    } else {
        s
    }
}

/// A sequence that does not start with whitespace keeps itself.
pub proof fn lemma_skip_ws_id(s: Seq<char>)
    requires
        s.len() == 0 || !is_ws(s[0]),
    ensures
        skip_ws(s) == s,
{
}

/// Consume insignificant whitespace, then a literal token.
pub open spec fn tok(s: Seq<char>, lit: Seq<char>) -> Option<Seq<char>> {
    expect(skip_ws(s), lit)
}

/// Consume insignificant whitespace, then a JSON string.
pub open spec fn tok_string(s: Seq<char>) -> Option<(Seq<char>, Seq<char>)> {
    scan_jstring(skip_ws(s))
}

/// Consume insignificant whitespace, then a JSON boolean.
pub open spec fn tok_bool(s: Seq<char>) -> Option<(bool, Seq<char>)> {
    scan_jbool(skip_ws(s))
}

/// Consume insignificant whitespace, then a JSON string or `null`.
pub open spec fn tok_opt_string(s: Seq<char>) -> Option<(Option<Seq<char>>, Seq<char>)> {
    scan_opt_string(skip_ws(s))
}

/// A token not starting with whitespace is consumed exactly.
pub proof fn lemma_tok(lit: Seq<char>, rest: Seq<char>)
    requires
        lit.len() > 0,
        !is_ws(lit[0]),
    ensures
        tok(lit + rest, lit) == Some(rest),
{
    assert((lit + rest)[0] == lit[0]);
    lemma_skip_ws_id(lit + rest);
    lemma_expect(lit, rest);
}

/// A written JSON string is consumed exactly as a token.
pub proof fn lemma_tok_string(v: Seq<char>, rest: Seq<char>)
    ensures
        tok_string(jstr(v) + rest) == Some((v, rest)),
{
    assert((jstr(v) + rest)[0] == '"');
    lemma_skip_ws_id(jstr(v) + rest);
    lemma_scan_jstring_round(v, rest);
}

/// A written boolean is consumed exactly as a token.
pub proof fn lemma_tok_bool(b: bool, rest: Seq<char>)
    ensures
        tok_bool(jbool(b) + rest) == Some((b, rest)),
{
    reveal_strlit("true");
    reveal_strlit("false");
    assert((jbool(b) + rest)[0] == jbool(b)[0]);
    lemma_skip_ws_id(jbool(b) + rest);
    lemma_scan_jbool_round(b, rest);
}

/// A written optional string is consumed exactly as a token.
pub proof fn lemma_tok_opt_string(ns: Option<Seq<char>>, rest: Seq<char>)
    ensures
        tok_opt_string(jopt(ns) + rest) == Some((ns, rest)),
{
    reveal_strlit("null");
    assert((jopt(ns) + rest)[0] == jopt(ns)[0]);
    lemma_skip_ws_id(jopt(ns) + rest);
    lemma_scan_opt_string_round(ns, rest);
}

/// Consuming a token only shortens the input.
pub proof fn lemma_skip_ws_len(s: Seq<char>)
    ensures
        skip_ws(s).len() <= s.len(),
    decreases s.len(),
{
    if s.len() > 0 && is_ws(s[0]) {
        lemma_skip_ws_len(s.skip(1));
    }
}

/// Scan the body of a JSON string after its opening quote: the decoded
/// content and the remainder after the closing quote.
pub open spec fn scan_body(s: Seq<char>) -> Option<(Seq<char>, Seq<char>)>
    decreases s.len(),
{
    if s.len() == 0 {
        None
    } else if s[0] == '"' {
        Some((Seq::<char>::empty(), s.skip(1)))
    } else if s[0] == '\\' {
        if s.len() >= 2 {
            match scan_body(s.skip(2)) {
                Some(p) => Some((seq![s[1]] + p.0, p.1)),
                None => None,
            }
        } else {
            None
        }
    } else {
        match scan_body(s.skip(1)) {
            Some(p) => Some((seq![s[0]] + p.0, p.1)),
            None => None,
        }
    }
}

/// Scan a whole JSON string, opening quote included.
pub open spec fn scan_jstring(s: Seq<char>) -> Option<(Seq<char>, Seq<char>)> {
    if s.len() > 0 && s[0] == '"' {
        scan_body(s.skip(1))
    } else {
        None
    }
}

/// A successful string scan consumes at least one character.
pub proof fn lemma_scan_body_len(s: Seq<char>)
    ensures
        scan_body(s) matches Some(p) ==> p.1.len() < s.len(),
    decreases s.len(),
{
    if s.len() == 0 {
    } else if s[0] == '"' {
    } else if s[0] == '\\' {
        if s.len() >= 2 {
            lemma_scan_body_len(s.skip(2));
        }
    } else {
        lemma_scan_body_len(s.skip(1));
    }
}

/// Scanning the escape of a sequence, a closing quote and a remainder
/// recovers the sequence and the remainder.
pub proof fn lemma_scan_body_round(v: Seq<char>, rest: Seq<char>)
    ensures
        scan_body(esc(v) + seq!['"'] + rest) == Some((v, rest)),
    decreases v.len(),
{
    let s = esc(v) + seq!['"'] + rest;
    if v.len() == 0 {
        assert(esc(v) =~= Seq::<char>::empty());
        assert(s =~= seq!['"'] + rest);
        assert(s[0] == '"');
        assert(s.skip(1) =~= rest);
        assert((Seq::<char>::empty(), s.skip(1)) == (Seq::<char>::empty(), rest));
        assert(Seq::<char>::empty() =~= v);
    } else {
        let c0 = v[0];
        let tail = esc(v.skip(1)) + seq!['"'] + rest;
        assert(esc(v) == esc_char(c0) + esc(v.skip(1)));
        lemma_scan_body_round(v.skip(1), rest);
        if c0 == '"' || c0 == '\\' {
            assert(esc_char(c0) == seq!['\\', c0]);
            assert(s =~= seq!['\\', c0] + tail);
            assert(s[0] == '\\');
            assert(s.len() >= 2);
            assert(s[1] == c0);
            assert(s.skip(2) =~= tail);
            assert(scan_body(s) == Some((seq![c0] + v.skip(1), rest)));
            assert(seq![c0] + v.skip(1) =~= v);
        } else {
            assert(esc_char(c0) == seq![c0]);
            assert(s =~= seq![c0] + tail);
            assert(s[0] == c0);
            assert(s.skip(1) =~= tail);
            assert(scan_body(s) == Some((seq![c0] + v.skip(1), rest)));
            assert(seq![c0] + v.skip(1) =~= v);
        }
    }
}

/// Scanning a written JSON string recovers its content and the remainder.
pub proof fn lemma_scan_jstring_round(v: Seq<char>, rest: Seq<char>)
    ensures
        scan_jstring(jstr(v) + rest) == Some((v, rest)),
{
    let s = jstr(v) + rest;
    assert(s[0] == '"');
    assert(s.skip(1) =~= esc(v) + seq!['"'] + rest);
    lemma_scan_body_round(v, rest);
}

/// Scan a JSON boolean.
pub open spec fn scan_jbool(s: Seq<char>) -> Option<(bool, Seq<char>)> {
    if crate::strutil::starts_with(s, "true"@) {
        Some((true, s.skip(4)))
    } else if crate::strutil::starts_with(s, "false"@) {
        Some((false, s.skip(5)))
    } else {
        None
    }
}

/// Scanning a written boolean recovers it.
pub proof fn lemma_scan_jbool_round(b: bool, rest: Seq<char>)
    ensures
        scan_jbool(jbool(b) + rest) == Some((b, rest)),
{
    reveal_strlit("true");
    reveal_strlit("false");
    let s = jbool(b) + rest;
    if b {
        assert(s.subrange(0, 4) =~= "true"@);
        assert(s.skip(4) =~= rest);
    } else {
        assert(s.subrange(0, 5) =~= "false"@);
        assert(s.skip(5) =~= rest);
        assert(!crate::strutil::starts_with(s, "true"@)) by {
            if crate::strutil::starts_with(s, "true"@) {
                assert(s.subrange(0, 4)[0] == 't');
                assert(s[0] == 'f');
            }
        }
    }
}

/// Scan a JSON string or `null`.
pub open spec fn scan_opt_string(s: Seq<char>) -> Option<(Option<Seq<char>>, Seq<char>)> {
    if crate::strutil::starts_with(s, "null"@) {
        Some((None, s.skip(4)))
    } else {
        match scan_jstring(s) {
            Some(p) => Some((Some(p.0), p.1)),
            None => None,
        }
    }
}

/// Scanning a written optional string recovers it.
pub proof fn lemma_scan_opt_string_round(ns: Option<Seq<char>>, rest: Seq<char>)
    ensures
        scan_opt_string(jopt(ns) + rest) == Some((ns, rest)),
{
    reveal_strlit("null");
    let s = jopt(ns) + rest;
    match ns {
        Some(v) => {
            assert(s[0] == '"');
            assert(!crate::strutil::starts_with(s, "null"@)) by {
                if crate::strutil::starts_with(s, "null"@) {
                    assert(s.subrange(0, 4)[0] == 'n');
                }
            }
            lemma_scan_jstring_round(v, rest);
        },
        None => {
            assert(s.subrange(0, 4) =~= "null"@);
            assert(s.skip(4) =~= rest);
        },
    }
}

/// Consume a key token followed by its colon.
pub open spec fn key_colon(s: Seq<char>, key: Seq<char>) -> Option<Seq<char>> {
    match tok(s, key) {
        Some(r) => tok(r, ":"@),
        None => None,
    }
}

/// Consume a comma, a key token and its colon.
pub open spec fn field(s: Seq<char>, key: Seq<char>) -> Option<Seq<char>> {
    match tok(s, ","@) {
        Some(r) => key_colon(r, key),
        None => None,
    }
}

/// A written `key:` run is consumed exactly.
pub proof fn lemma_key_colon(key: Seq<char>, rest: Seq<char>)
    requires
        key.len() > 0,
        !is_ws(key[0]),
    ensures
        key_colon(key + (":"@ + rest), key) == Some(rest),
{
    reveal_strlit(":");
    lemma_tok(key, ":"@ + rest);
    lemma_tok(":"@, rest);
}

/// A written `,key:` run is consumed exactly.
pub proof fn lemma_field(key: Seq<char>, rest: Seq<char>)
    requires
        key.len() > 0,
        !is_ws(key[0]),
    ensures
        field(","@ + (key + (":"@ + rest)), key) == Some(rest),
{
    reveal_strlit(",");
    lemma_tok(","@, key + (":"@ + rest));
    lemma_key_colon(key, rest);
}

/// Scan one dependency object, whitespace between tokens allowed.
pub open spec fn scan_dep(s: Seq<char>) -> Option<((Seq<char>, Seq<char>), Seq<char>)> {
    match tok(s, "{"@) {
        Some(r1) => match key_colon(r1, "\"url\""@) {
            Some(r2) => match tok_string(r2) {
                Some((url, r3)) => match field(r3, "\"version\""@) {
                    Some(r4) => match tok_string(r4) {
                        Some((version, r5)) => match tok(r5, "}"@) {
                            Some(r6) => Some(((url, version), r6)),
                            None => None,
                        },
                        None => None,
                    },
                    None => None,
                },
                None => None,
            },
            None => None,
        },
        None => None,
    }
}

/// Scanning a written dependency object recovers its pair.
pub proof fn lemma_scan_dep_round(p: (Seq<char>, Seq<char>), rest: Seq<char>)
    ensures
        scan_dep(jdep(p) + rest) == Some((p, rest)),
        jdep(p).len() > 0,
        (jdep(p) + rest)[0] == '{',
{
    reveal_strlit("{\"url\":");
    reveal_strlit("{");
    reveal_strlit("\"url\"");
    reveal_strlit(":");
    reveal_strlit(",\"version\":");
    reveal_strlit(",");
    reveal_strlit("\"version\"");
    reveal_strlit("}");
    let s = jdep(p) + rest;
    let c6 = rest;
    let c5 = "}"@ + c6;
    let c4b = jstr(p.1) + c5;
    let c4 = ","@ + ("\"version\""@ + (":"@ + c4b));
    let c2b = jstr(p.0) + c4;
    let c2 = "\"url\""@ + (":"@ + c2b);
    let c1 = "{"@ + c2;
    assert(s =~= c1);
    lemma_tok("{"@, c2);
    lemma_key_colon("\"url\""@, c2b);
    lemma_tok_string(p.0, c4);
    lemma_field("\"version\""@, c4b);
    lemma_tok_string(p.1, c5);
    lemma_tok("}"@, c6);
    assert(tok(s, "{"@) == Some(c2));
    assert(key_colon(c2, "\"url\""@) == Some(c2b));
    assert(tok_string(c2b) == Some((p.0, c4)));
    assert(field(c4, "\"version\""@) == Some(c4b));
    assert(tok_string(c4b) == Some((p.1, c5)));
    assert(tok(c5, "}"@) == Some(c6));
    assert(scan_dep(s) == Some((p, rest)));
}

/// Scan the inside of the dependency array, after the opening bracket,
/// through the closing bracket, whitespace between tokens allowed.
pub open spec fn scan_deps(s: Seq<char>) -> Option<(Seq<(Seq<char>, Seq<char>)>, Seq<char>)>
    decreases s.len(),
{
    let t = skip_ws(s);
    if t.len() == 0 {
        None
    } else if t[0] == ']' {
        Some((Seq::<(Seq<char>, Seq<char>)>::empty(), t.skip(1)))
    } else {
        match scan_dep(s) {
            Some(pr) => {
                let p = pr.0;
                let u = skip_ws(pr.1);
                if u.len() > 0 && u[0] == ',' {
                    if u.skip(1).len() < s.len() {
                        match scan_deps(u.skip(1)) {
                            Some(q) => Some((seq![p] + q.0, q.1)),
                            None => None,
                        }
                    } else {
                        None
                    }
                } else if u.len() > 0 && u[0] == ']' {
                    Some((seq![p], u.skip(1)))
                } else {
                    None
                }
            },
            None => None,
        }
    }
}

/// A successful dependency scan only shortens the input.
pub proof fn lemma_scan_dep_len(s: Seq<char>)
    ensures
        scan_dep(s) matches Some(pr) ==> pr.1.len() < s.len(),
{
    reveal_strlit("{");
    reveal_strlit("\"url\"");
    reveal_strlit(":");
    reveal_strlit(",");
    reveal_strlit("\"version\"");
    reveal_strlit("}");
    if scan_dep(s) is Some {
        lemma_skip_ws_len(s);
        let r1 = tok(s, "{"@).unwrap();
        assert(r1.len() < s.len());
        lemma_skip_ws_len(r1);
        let r1b = tok(r1, "\"url\""@).unwrap();
        lemma_skip_ws_len(r1b);
        let r2 = tok(r1b, ":"@).unwrap();
        lemma_skip_ws_len(r2);
        let p1 = tok_string(r2).unwrap();
        lemma_scan_body_len(skip_ws(r2).skip(1));
        assert(p1.1.len() < r2.len());
        let r3b = tok(p1.1, ","@).unwrap();
        lemma_skip_ws_len(p1.1);
        lemma_skip_ws_len(r3b);
        let r3c = tok(r3b, "\"version\""@).unwrap();
        lemma_skip_ws_len(r3c);
        let r4 = tok(r3c, ":"@).unwrap();
        lemma_skip_ws_len(r4);
        let p2 = tok_string(r4).unwrap();
        lemma_scan_body_len(skip_ws(r4).skip(1));
        lemma_skip_ws_len(p2.1);
        let r6 = tok(p2.1, "}"@).unwrap();
        assert(r6.len() < s.len());
    }
}

/// The dependency a scanned `(url, version)` pair yields: the slot is
/// derived by the remote rule; a url the rule cannot derive keeps an
/// empty, pending slot, which
/// [`crate::manifest::Package::rederive_dependencies`] completes or
/// rejects once the caller knows whether the url is an existing local
/// path.
pub open spec fn derived_or_pending(url: Seq<char>, version: Seq<char>) -> DepModel {
    match derive_remote(url) {
        Some(nn) => DepModel { url, version, name: nn.0, namespace: nn.1 },
        None => DepModel {
            url,
            version,
            name: Seq::<char>::empty(),
            namespace: Seq::<char>::empty(),
        },
    }
}

/// The slot of every scanned `(url, version)` pair, derived by the
/// remote rule or left pending.
pub open spec fn derive_pairs(ps: Seq<(Seq<char>, Seq<char>)>) -> Seq<DepModel> {
    ps.map_values(|p: (Seq<char>, Seq<char>)| derived_or_pending(p.0, p.1))
}

/// What re-deriving a dependency sequence by the remote rule yields.
pub open spec fn rederive_remote(deps: Seq<DepModel>) -> Seq<DepModel> {
    deps.map_values(|d: DepModel| derived_or_pending(d.url, d.version))
}

/// The pairs taken from a dependency sequence derive back to that
/// sequence re-derived by the remote rule.
pub proof fn lemma_derive_pairs(deps: Seq<DepModel>)
    ensures
        derive_pairs(dep_pairs(deps)) == rederive_remote(deps),
{
    assert(derive_pairs(dep_pairs(deps)) =~= rederive_remote(deps)) by {
        assert(forall|i: int|
            0 <= i < deps.len() ==> #[trigger] dep_pairs(deps)[i] == (
                deps[i].url,
                deps[i].version,
            ));
    }
}

/// The parse of a whole manifest document: the fields of the form
/// written by [`spec_write`], in that order, with insignificant
/// whitespace allowed between tokens, and every dependency slot
/// re-derived from its url.
pub open spec fn spec_parse(s: Seq<char>) -> Option<PkgModel> {
    match tok(s, "{"@) {
        Some(r0) => match key_colon(r0, "\"name\""@) {
            Some(r1) => match tok_string(r1) {
                Some((name, r2)) => match field(r2, "\"namespace\""@) {
                    Some(r3) => match tok_opt_string(r3) {
                        Some((namespace, r4)) => match field(r4, "\"description\""@) {
                            Some(r5) => match tok_string(r5) {
                                Some((description, r6)) => match field(r6, "\"version\""@) {
                                    Some(r7) => match tok_string(r7) {
                                        Some((version, r8)) => spec_parse_tail(
                                            s,
                                            name,
                                            namespace,
                                            description,
                                            version,
                                            r8,
                                        ),
                                        None => None,
                                    },
                                    None => None,
                                },
                                None => None,
                            },
                            None => None,
                        },
                        None => None,
                    },
                    None => None,
                },
                None => None,
            },
            None => None,
        },
        None => None,
    }
}

/// The parse of a manifest document from the interpreter field on.
pub open spec fn spec_parse_tail(
    s: Seq<char>,
    name: Seq<char>,
    namespace: Option<Seq<char>>,
    description: Seq<char>,
    version: Seq<char>,
    r8: Seq<char>,
) -> Option<PkgModel> {
    match field(r8, "\"interpreter\""@) {
        Some(r9) => match tok_string(r9) {
            Some((iname, r10)) => match crate::shell::shell_of_name(iname) {
                Some(interpreter) => match field(r10, "\"is_library\""@) {
                    Some(r11) => match tok_bool(r11) {
                        Some((is_library, r12)) => match field(r12, "\"entrypoint\""@) {
                            Some(r13) => match tok_string(r13) {
                                Some((entrypoint, r14)) => match field(r14, "\"install\""@) {
                                    Some(r15a) => match tok(r15a, "{"@) {
                                        Some(r15b) => match key_colon(
                                            r15b,
                                            "\"setup_script\""@,
                                        ) {
                                            Some(r15) => match tok_string(r15) {
                                                Some((setup_script, r16)) => match field(
                                                    r16,
                                                    "\"register_to_environment_tool\""@,
                                                ) {
                                                    Some(r17) => match tok_bool(r17) {
                                                        Some((register, r18)) => spec_parse_deps(
                                                            name,
                                                            namespace,
                                                            description,
                                                            version,
                                                            interpreter,
                                                            is_library,
                                                            entrypoint,
                                                            setup_script,
                                                            register,
                                                            r18,
                                                        ),
                                                        None => None,
                                                    },
                                                    None => None,
                                                },
                                                None => None,
                                            },
                                            None => None,
                                        },
                                        None => None,
                                    },
                                    None => None,
                                },
                                None => None,
                            },
                            None => None,
                        },
                        None => None,
                    },
                    None => None,
                },
                None => None,
            },
            None => None,
        },
        None => None,
    }
}

/// The parse of a manifest document from the uninstall field on.
pub open spec fn spec_parse_deps(
    name: Seq<char>,
    namespace: Option<Seq<char>>,
    description: Seq<char>,
    version: Seq<char>,
    interpreter: ShellType,
    is_library: bool,
    entrypoint: Seq<char>,
    setup_script: Seq<char>,
    register: bool,
    r18: Seq<char>,
) -> Option<PkgModel> {
    match tok(r18, "}"@) {
        Some(r19a) => match field(r19a, "\"uninstall\""@) {
            Some(r19) => match tok_string(r19) {
                Some((uninstall, r20)) => match field(r20, "\"dependencies\""@) {
                    Some(r21a) => match tok(r21a, "["@) {
                        Some(r21) => match scan_deps(r21) {
                            Some((pairs, r22)) => match tok(r22, "}"@) {
                                Some(r23) => if skip_ws(r23).len() == 0 {
                                    Some(
                                        PkgModel {
                                            name,
                                            namespace,
                                            description,
                                            version,
                                            interpreter,
                                            is_library,
                                            entrypoint,
                                            setup_script,
                                            register_to_environment_tool: register,
                                            uninstall,
                                            deps: derive_pairs(pairs),
                                        },
                                    )
                                } else {
                                    None
                                },
                                None => None,
                            },
                            None => None,
                        },
                        None => None,
                    },
                    None => None,
                },
                None => None,
            },
            None => None,
        },
        None => None,
    }
}

/// The canonical interpreter name parses back to the interpreter.
pub proof fn lemma_shell_name_inverse(t: ShellType)
    ensures
        crate::shell::shell_of_name(shell_name(t)) == Some(t),
{
    reveal_strlit("sh");
    reveal_strlit("bash");
    reveal_strlit("zsh");
    reveal_strlit("cmd");
    match t {
        ShellType::Sh => {
            assert(shell_name(t) == "sh"@);
        },
        ShellType::Bash => {
            assert(shell_name(t).len() == 4);
            assert(shell_name(t) != "sh"@);
            assert(shell_name(t) == "bash"@);
        },
        ShellType::Zsh => {
            assert(shell_name(t).len() == 3);
            assert(shell_name(t) != "sh"@);
            assert(shell_name(t) != "bash"@);
            assert(shell_name(t) == "zsh"@);
        },
        ShellType::Cmd => {
            assert(shell_name(t).len() == 3);
            assert(shell_name(t)[0] == 'c');
            assert(shell_name(t) != "sh"@);
            assert(shell_name(t) != "bash"@);
            assert(shell_name(t) != "zsh"@);
            assert(shell_name(t) == "cmd"@);
        },
    }
}

/// The document tail from the closing of the install object on: the
/// uninstall field and the dependency array.
spec fn doc_tail_uninstall(m: PkgModel) -> Seq<char> {
    "}"@ + (","@ + ("\"uninstall\""@ + (":"@ + (jstr(m.uninstall) + (","@ + ("\"dependencies\""@
        + (":"@ + ("["@ + (jdeps(dep_pairs(m.deps)) + (seq![']'] + "}"@))))))))))
}

/// The document tail from the interpreter field on.
spec fn doc_tail_interpreter(m: PkgModel) -> Seq<char> {
    ","@ + ("\"interpreter\""@ + (":"@ + (jstr(shell_name(m.interpreter)) + (","@ + (
    "\"is_library\""@ + (":"@ + (jbool(m.is_library) + (","@ + ("\"entrypoint\""@ + (":"@ + (jstr(
        m.entrypoint,
    ) + (","@ + ("\"install\""@ + (":"@ + ("{"@ + ("\"setup_script\""@ + (":"@ + (jstr(
        m.setup_script,
    ) + (","@ + ("\"register_to_environment_tool\""@ + (":"@ + (jbool(
        m.register_to_environment_tool,
    ) + doc_tail_uninstall(m)))))))))))))))))))))))
}

/// The uninstall-and-dependencies tail parses back to the manifest.
#[verifier::rlimit(100)]
proof fn lemma_round_trip_uninstall(m: PkgModel)
    ensures
        spec_parse_deps(
            m.name,
            m.namespace,
            m.description,
            m.version,
            m.interpreter,
            m.is_library,
            m.entrypoint,
            m.setup_script,
            m.register_to_environment_tool,
            doc_tail_uninstall(m),
        ) == Some(PkgModel { deps: rederive_remote(m.deps), ..m }),
{
    reveal_strlit("{");
    reveal_strlit("}");
    reveal_strlit("[");
    reveal_strlit(",");
    reveal_strlit(":");
    reveal_strlit("\"uninstall\"");
    reveal_strlit("\"dependencies\"");
    let m2 = PkgModel { deps: rederive_remote(m.deps), ..m };
    let pairs = dep_pairs(m.deps);
    let c23 = Seq::<char>::empty();
    let c22 = "}"@;
    let c21 = jdeps(pairs) + (seq![']'] + c22);
    let c21a = "["@ + c21;
    let c20 = ","@ + ("\"dependencies\""@ + (":"@ + c21a));
    let c19b = jstr(m.uninstall) + c20;
    let c19 = ","@ + ("\"uninstall\""@ + (":"@ + c19b));
    let c18 = doc_tail_uninstall(m);
    assert(c18 == "}"@ + c19);
    lemma_tok("}"@, c19);
    lemma_field("\"uninstall\""@, c19b);
    lemma_tok_string(m.uninstall, c20);
    lemma_field("\"dependencies\""@, c21a);
    lemma_tok("["@, c21);
    lemma_scan_deps_round(pairs, c22);
    assert(c21 =~= jdeps(pairs) + seq![']'] + c22);
    assert(c22 =~= "}"@ + c23);
    lemma_tok("}"@, c23);
    lemma_derive_pairs(m.deps);
    assert(tok(c18, "}"@) == Some(c19));
    assert(field(c19, "\"uninstall\""@) == Some(c19b));
    assert(tok_string(c19b) == Some((m.uninstall, c20)));
    assert(field(c20, "\"dependencies\""@) == Some(c21a));
    assert(tok(c21a, "["@) == Some(c21));
    assert(scan_deps(c21) == Some((pairs, c22)));
    assert(tok(c22, "}"@) == Some(c23));
    assert(skip_ws(c23).len() == 0);
    assert(derive_pairs(pairs) == rederive_remote(m.deps));
}

/// The interpreter-to-install tail parses back to the manifest.
#[verifier::rlimit(100)]
proof fn lemma_round_trip_interpreter(m: PkgModel, s: Seq<char>)
    ensures
        spec_parse_tail(
            s,
            m.name,
            m.namespace,
            m.description,
            m.version,
            doc_tail_interpreter(m),
        ) == Some(PkgModel { deps: rederive_remote(m.deps), ..m }),
{
    reveal_strlit("{");
    reveal_strlit(",");
    reveal_strlit(":");
    reveal_strlit("\"interpreter\"");
    reveal_strlit("\"is_library\"");
    reveal_strlit("\"entrypoint\"");
    reveal_strlit("\"install\"");
    reveal_strlit("\"setup_script\"");
    reveal_strlit("\"register_to_environment_tool\"");
    let m2 = PkgModel { deps: rederive_remote(m.deps), ..m };
    let c18 = doc_tail_uninstall(m);
    let c17b = jbool(m.register_to_environment_tool) + c18;
    let c16 = ","@ + ("\"register_to_environment_tool\""@ + (":"@ + c17b));
    let c15b = jstr(m.setup_script) + c16;
    let c15 = "\"setup_script\""@ + (":"@ + c15b);
    let c15a = "{"@ + c15;
    let c14 = ","@ + ("\"install\""@ + (":"@ + c15a));
    let c13b = jstr(m.entrypoint) + c14;
    let c12 = ","@ + ("\"entrypoint\""@ + (":"@ + c13b));
    let c11b = jbool(m.is_library) + c12;
    let c10 = ","@ + ("\"is_library\""@ + (":"@ + c11b));
    let c9b = jstr(shell_name(m.interpreter)) + c10;
    let c8 = doc_tail_interpreter(m);
    assert(c8 == ","@ + ("\"interpreter\""@ + (":"@ + c9b)));
    lemma_field("\"interpreter\""@, c9b);
    lemma_tok_string(shell_name(m.interpreter), c10);
    lemma_shell_name_inverse(m.interpreter);
    lemma_field("\"is_library\""@, c11b);
    lemma_tok_bool(m.is_library, c12);
    lemma_field("\"entrypoint\""@, c13b);
    lemma_tok_string(m.entrypoint, c14);
    lemma_field("\"install\""@, c15a);
    lemma_tok("{"@, c15);
    lemma_key_colon("\"setup_script\""@, c15b);
    lemma_tok_string(m.setup_script, c16);
    lemma_field("\"register_to_environment_tool\""@, c17b);
    lemma_tok_bool(m.register_to_environment_tool, c18);
    lemma_round_trip_uninstall(m);
    assert(field(c8, "\"interpreter\""@) == Some(c9b));
    assert(tok_string(c9b) == Some((shell_name(m.interpreter), c10)));
    assert(field(c10, "\"is_library\""@) == Some(c11b));
    assert(tok_bool(c11b) == Some((m.is_library, c12)));
    assert(field(c12, "\"entrypoint\""@) == Some(c13b));
    assert(tok_string(c13b) == Some((m.entrypoint, c14)));
    assert(field(c14, "\"install\""@) == Some(c15a));
    assert(tok(c15a, "{"@) == Some(c15));
    assert(key_colon(c15, "\"setup_script\""@) == Some(c15b));
    assert(tok_string(c15b) == Some((m.setup_script, c16)));
    assert(field(c16, "\"register_to_environment_tool\""@) == Some(c17b));
    assert(tok_bool(c17b) == Some((m.register_to_environment_tool, c18)));
}

/// The compound uninstall tail equals its tokenized form.
proof fn lemma_reshape_uninstall(m: PkgModel)
    ensures
        "},\"uninstall\":"@ + (jstr(m.uninstall) + (",\"dependencies\":["@ + (jdeps(
            dep_pairs(m.deps),
        ) + (seq![']'] + "}"@)))) == doc_tail_uninstall(m),
{
    reveal_strlit("},\"uninstall\":");
    reveal_strlit(",\"dependencies\":[");
    reveal_strlit("{");
    reveal_strlit("}");
    reveal_strlit("[");
    reveal_strlit(",");
    reveal_strlit(":");
    reveal_strlit("\"uninstall\"");
    reveal_strlit("\"dependencies\"");
    assert("},\"uninstall\":"@ + (jstr(m.uninstall) + (",\"dependencies\":["@ + (jdeps(
        dep_pairs(m.deps),
    ) + (seq![']'] + "}"@)))) =~= doc_tail_uninstall(m));
}

/// The compound interpreter-to-install tail equals its tokenized form.
#[verifier::rlimit(100)]
proof fn lemma_reshape_interpreter(m: PkgModel)
    ensures
        ",\"interpreter\":"@ + (jstr(shell_name(m.interpreter)) + (",\"is_library\":"@ + (jbool(
            m.is_library,
        ) + (",\"entrypoint\":"@ + (jstr(m.entrypoint) + (",\"install\":{\"setup_script\":"@ + (
        jstr(m.setup_script) + (",\"register_to_environment_tool\":"@ + (jbool(
            m.register_to_environment_tool,
        ) + doc_tail_uninstall(m)))))))))) == doc_tail_interpreter(m),
{
    reveal_strlit(",\"interpreter\":");
    reveal_strlit(",\"is_library\":");
    reveal_strlit(",\"entrypoint\":");
    reveal_strlit(",\"install\":{\"setup_script\":");
    reveal_strlit(",\"register_to_environment_tool\":");
    reveal_strlit("{");
    reveal_strlit(",");
    reveal_strlit(":");
    reveal_strlit("\"interpreter\"");
    reveal_strlit("\"is_library\"");
    reveal_strlit("\"entrypoint\"");
    reveal_strlit("\"install\"");
    reveal_strlit("\"setup_script\"");
    reveal_strlit("\"register_to_environment_tool\"");
    let c18 = doc_tail_uninstall(m);
    let t5 = jbool(m.register_to_environment_tool) + c18;
    let f5 = ","@ + ("\"register_to_environment_tool\""@ + (":"@ + t5));
    assert(",\"register_to_environment_tool\":"@ + t5 =~= f5);
    let t4 = jstr(m.setup_script) + f5;
    let f4 = ","@ + ("\"install\""@ + (":"@ + ("{"@ + ("\"setup_script\""@ + (":"@ + t4)))));
    assert(",\"install\":{\"setup_script\":"@ + t4 =~= f4);
    let t3 = jstr(m.entrypoint) + f4;
    let f3 = ","@ + ("\"entrypoint\""@ + (":"@ + t3));
    assert(",\"entrypoint\":"@ + t3 =~= f3);
    let t2 = jbool(m.is_library) + f3;
    let f2 = ","@ + ("\"is_library\""@ + (":"@ + t2));
    assert(",\"is_library\":"@ + t2 =~= f2);
    let t1 = jstr(shell_name(m.interpreter)) + f2;
    let f1 = ","@ + ("\"interpreter\""@ + (":"@ + t1));
    assert(",\"interpreter\":"@ + t1 =~= f1);
    assert(f1 == doc_tail_interpreter(m));
}

/// The whole document in tokenized form: each compound run of the
/// written form split at its token boundaries.
spec fn doc_tokens(m: PkgModel) -> Seq<char> {
    "{"@ + ("\"name\""@ + (":"@ + (jstr(m.name) + (","@ + ("\"namespace\""@ + (":"@ + (jopt(
        m.namespace,
    ) + (","@ + ("\"description\""@ + (":"@ + (jstr(m.description) + (","@ + ("\"version\""@ + (
    ":"@ + (jstr(m.version) + doc_tail_interpreter(m))))))))))))))))
}

/// The written document equals its tokenized form.
#[verifier::rlimit(100)]
proof fn lemma_reshape_header(m: PkgModel)
    ensures
        spec_write(m) == doc_tokens(m),
{
    reveal_strlit("{\"name\":");
    reveal_strlit(",\"namespace\":");
    reveal_strlit(",\"description\":");
    reveal_strlit(",\"version\":");
    reveal_strlit("{");
    reveal_strlit(",");
    reveal_strlit(":");
    reveal_strlit("\"name\"");
    reveal_strlit("\"namespace\"");
    reveal_strlit("\"description\"");
    reveal_strlit("\"version\"");
    reveal_strlit("]}");
    reveal_strlit("}");
    reveal_strlit("[");
    let c18 = doc_tail_uninstall(m);
    let c8 = doc_tail_interpreter(m);
    lemma_reshape_uninstall(m);
    lemma_reshape_interpreter(m);
    assert(spec_write(m) == "{\"name\":"@ + (jstr(m.name) + (",\"namespace\":"@ + (jopt(
        m.namespace,
    ) + (",\"description\":"@ + (jstr(m.description) + (",\"version\":"@ + (jstr(m.version)
        + c8))))))));
    let t4 = jstr(m.version) + c8;
    let f4 = ","@ + ("\"version\""@ + (":"@ + t4));
    assert(",\"version\":"@ + t4 =~= f4);
    let t3 = jstr(m.description) + f4;
    let f3 = ","@ + ("\"description\""@ + (":"@ + t3));
    assert(",\"description\":"@ + t3 =~= f3);
    let t2 = jopt(m.namespace) + f3;
    let f2 = ","@ + ("\"namespace\""@ + (":"@ + t2));
    assert(",\"namespace\":"@ + t2 =~= f2);
    let t1 = jstr(m.name) + f2;
    let f1 = "{"@ + ("\"name\""@ + (":"@ + t1));
    assert("{\"name\":"@ + t1 =~= f1);
    assert(f1 == doc_tokens(m));
}

/// LAW — manifest round trip.  Writing any manifest and parsing the
/// document back succeeds and yields that manifest with every dependency
/// slot recomputed from its url: the remote rule's result where it
/// derives, a pending slot otherwise.
#[verifier::rlimit(100)]
pub proof fn lemma_manifest_round_trip(m: PkgModel)
    ensures
        spec_parse(spec_write(m)) == Some(PkgModel { deps: rederive_remote(m.deps), ..m }),
{
    reveal_strlit("{");
    reveal_strlit(",");
    reveal_strlit(":");
    reveal_strlit("\"name\"");
    reveal_strlit("\"namespace\"");
    reveal_strlit("\"description\"");
    reveal_strlit("\"version\"");
    let m2 = PkgModel { deps: rederive_remote(m.deps), ..m };
    let c8 = doc_tail_interpreter(m);
    let c7b = jstr(m.version) + c8;
    let c6 = ","@ + ("\"version\""@ + (":"@ + c7b));
    let c5b = jstr(m.description) + c6;
    let c4 = ","@ + ("\"description\""@ + (":"@ + c5b));
    let c3b = jopt(m.namespace) + c4;
    let c2 = ","@ + ("\"namespace\""@ + (":"@ + c3b));
    let c1b = jstr(m.name) + c2;
    let c1k = "\"name\""@ + (":"@ + c1b);
    let s = spec_write(m);
    lemma_reshape_header(m);
    assert(s == "{"@ + c1k);
    lemma_tok("{"@, c1k);
    lemma_key_colon("\"name\""@, c1b);
    lemma_tok_string(m.name, c2);
    lemma_field("\"namespace\""@, c3b);
    lemma_tok_opt_string(m.namespace, c4);
    lemma_field("\"description\""@, c5b);
    lemma_tok_string(m.description, c6);
    lemma_field("\"version\""@, c7b);
    lemma_tok_string(m.version, c8);
    lemma_round_trip_interpreter(m, s);
    assert(tok(s, "{"@) == Some(c1k));
    assert(key_colon(c1k, "\"name\""@) == Some(c1b));
    assert(tok_string(c1b) == Some((m.name, c2)));
    assert(field(c2, "\"namespace\""@) == Some(c3b));
    assert(tok_opt_string(c3b) == Some((m.namespace, c4)));
    assert(field(c4, "\"description\""@) == Some(c5b));
    assert(tok_string(c5b) == Some((m.description, c6)));
    assert(field(c6, "\"version\""@) == Some(c7b));
    assert(tok_string(c7b) == Some((m.version, c8)));
    assert(spec_parse_tail(s, m.name, m.namespace, m.description, m.version, c8) == Some(m2));
    assert(spec_parse(s) == Some(m2));
}

/// LAW — manifest round trip, exactly.  Where every dependency slot
/// already agrees with the remote derivation of its url, writing and
/// parsing yields the very same manifest.
pub proof fn lemma_manifest_round_trip_exact(m: PkgModel)
    requires
        forall|i: int|
            0 <= i < m.deps.len() ==> derive_remote(#[trigger] m.deps[i].url) == Some(
                (m.deps[i].name, m.deps[i].namespace),
            ),
    ensures
        spec_parse(spec_write(m)) == Some(m),
{
    lemma_manifest_round_trip(m);
    assert(rederive_remote(m.deps) =~= m.deps);
    assert(PkgModel { deps: rederive_remote(m.deps), ..m } == m);
}

/// The views of scanned `(url, version)` string pairs.
pub open spec fn pairs_view(ps: Seq<(String, String)>) -> Seq<(Seq<char>, Seq<char>)> {
    ps.map_values(|p: (String, String)| (p.0@, p.1@))
}

/// Consume a literal at a position of the document.
fn expect_lit(s: &str, pos: usize, lit: &str) -> (r: Option<usize>)
    requires
        pos <= s@.len(),
    ensures
        match r {
            Some(p2) => expect(s@.skip(pos as int), lit@) == Some(s@.skip(p2 as int)) && p2 == pos
                + lit@.len() && p2 <= s@.len(),
            None => expect(s@.skip(pos as int), lit@) is None,
        },
{
    let len = s.unicode_len();
    let llen = lit.unicode_len();
    if llen > len - pos {
        proof {
            assert(s@.skip(pos as int).len() < lit@.len());
        }
        return None;
    }
    let mut j: usize = 0;
    while j < llen
        invariant
            0 <= j <= llen,
            pos + llen <= len,
            len == s@.len(),
            llen == lit@.len(),
            forall|k: int| 0 <= k < j ==> s@[pos + k] == lit@[k],
        decreases llen - j,
    {
        if s.get_char(pos + j) != lit.get_char(j) {
            proof {
                let rest = s@.skip(pos as int);
                assert(rest.subrange(0, lit@.len() as int)[j as int] != lit@[j as int]);
            }
            return None;
        }
        j += 1;
    }
    proof {
        let rest = s@.skip(pos as int);
        assert(rest.subrange(0, lit@.len() as int) =~= lit@);
        assert(rest.skip(lit@.len() as int) =~= s@.skip(pos + lit@.len()));
    }
    Some(pos + llen)
}

/// Scan a JSON string at a position of the document.
fn scan_string_at(s: &str, pos: usize) -> (r: Option<(String, usize)>)
    requires
        pos <= s@.len(),
    ensures
        match r {
            Some(p) => scan_jstring(s@.skip(pos as int)) == Some((p.0@, s@.skip(p.1 as int)))
                && pos < p.1 <= s@.len(),
            None => scan_jstring(s@.skip(pos as int)) is None,
        },
{
    let len = s.unicode_len();
    if pos >= len || s.get_char(pos) != '"' {
        proof {
            if pos < s@.len() {
                assert(s@.skip(pos as int)[0] == s@[pos as int]);
            }
        }
        return None;
    }
    proof {
        assert(s@.skip(pos as int)[0] == '"');
    }
    let p0: usize = pos + 1;
    let mut out = String::new();
    let mut i: usize = p0;
    proof {
        assert(s@.skip(pos as int).skip(1) =~= s@.skip(p0 as int));
    }
    while i < len
        invariant
            p0 <= i <= len,
            pos < p0,
            len == s@.len(),
            scan_jstring(s@.skip(pos as int)) == scan_body(s@.skip(p0 as int)),
            match scan_body(s@.skip(i as int)) {
                Some(p) => scan_body(s@.skip(p0 as int)) == Some((out@ + p.0, p.1)),
                None => scan_body(s@.skip(p0 as int)) is None,
            },
        decreases len - i,
    {
        let c = s.get_char(i);
        if c == '"' {
            proof {
                let cur = s@.skip(i as int);
                assert(cur[0] == '"');
                assert(cur.skip(1) =~= s@.skip(i + 1));
                assert(scan_body(cur) == Some((Seq::<char>::empty(), s@.skip(i + 1))));
                assert(out@ + Seq::<char>::empty() =~= out@);
            }
            return Some((out, i + 1));
        } else if c == '\\' {
            if i + 1 >= len {
                proof {
                    let cur = s@.skip(i as int);
                    assert(cur[0] == '\\');
                    assert(cur.len() < 2);
                    assert(scan_body(cur) is None);
                }
                return None;
            }
            let c2 = s.get_char(i + 1);
            let ghost out_pre = out@;
            push_char(&mut out, c2);
            proof {
                let cur = s@.skip(i as int);
                assert(cur[0] == '\\');
                assert(cur.len() >= 2);
                assert(cur[1] == s@[i + 1]);
                assert(cur.skip(2) =~= s@.skip(i + 2));
                match scan_body(s@.skip(i + 2)) {
                    Some(p) => {
                        assert(scan_body(cur) == Some((seq![s@[i + 1]] + p.0, p.1)));
                        assert(out_pre + (seq![s@[i + 1]] + p.0) =~= out@ + p.0);
                    },
                    None => {},
                }
            }
            i += 2;
        } else {
            let ghost out_pre = out@;
            push_char(&mut out, c);
            proof {
                let cur = s@.skip(i as int);
                assert(cur[0] == s@[i as int]);
                assert(cur.skip(1) =~= s@.skip(i + 1));
                match scan_body(s@.skip(i + 1)) {
                    Some(p) => {
                        assert(scan_body(cur) == Some((seq![s@[i as int]] + p.0, p.1)));
                        assert(out_pre + (seq![s@[i as int]] + p.0) =~= out@ + p.0);
                    },
                    None => {},
                }
            }
            i += 1;
        }
    }
    proof {
        assert(s@.skip(len as int).len() == 0);
        assert(scan_body(s@.skip(len as int)) is None);
    }
    None
}

/// Scan a JSON boolean at a position of the document.
fn scan_bool_at(s: &str, pos: usize) -> (r: Option<(bool, usize)>)
    requires
        pos <= s@.len(),
    ensures
        match r {
            Some(p) => scan_jbool(s@.skip(pos as int)) == Some((p.0, s@.skip(p.1 as int))) && pos
                < p.1 <= s@.len(),
            None => scan_jbool(s@.skip(pos as int)) is None,
        },
{
    proof {
        reveal_strlit("true");
        reveal_strlit("false");
    }
    match expect_lit(s, pos, "true") {
        Some(p2) => Some((true, p2)),
        None => match expect_lit(s, pos, "false") {
            Some(p2) => Some((false, p2)),
            None => None,
        },
    }
}

/// Scan a JSON string or `null` at a position of the document.
fn scan_opt_string_at(s: &str, pos: usize) -> (r: Option<(Option<String>, usize)>)
    requires
        pos <= s@.len(),
    ensures
        match r {
            Some(p) => scan_opt_string(s@.skip(pos as int)) == Some(
                (
                    match p.0 {
                        Some(v) => Some(v@),
                        None => None,
                    },
                    s@.skip(p.1 as int),
                ),
            ) && pos < p.1 <= s@.len(),
            None => scan_opt_string(s@.skip(pos as int)) is None,
        },
{
    proof {
        reveal_strlit("null");
    }
    match expect_lit(s, pos, "null") {
        Some(p2) => Some((None, p2)),
        None => match scan_string_at(s, pos) {
            Some((v, p2)) => Some((Some(v), p2)),
            None => None,
        },
    }
}

/// Whether the character is insignificant document whitespace.
fn is_ws_char(c: char) -> (r: bool)
    ensures
        r == is_ws(c),
{
    c == ' ' || c == '\t' || c == '\n' || c == '\r'
}

/// Skip insignificant whitespace at a position of the document.
fn skip_ws_at(s: &str, pos: usize) -> (p2: usize)
    requires
        pos <= s@.len(),
    ensures
        pos <= p2 <= s@.len(),
        s@.skip(p2 as int) == skip_ws(s@.skip(pos as int)),
{
    let len = s.unicode_len();
    let mut i: usize = pos;
    while i < len && is_ws_char(s.get_char(i))
        invariant
            pos <= i <= len,
            len == s@.len(),
            skip_ws(s@.skip(pos as int)) == skip_ws(s@.skip(i as int)),
        decreases len - i,
    {
        proof {
            let cur = s@.skip(i as int);
            assert(cur[0] == s@[i as int]);
            assert(cur.skip(1) =~= s@.skip(i + 1));
        }
        i += 1;
    }
    proof {
        let cur = s@.skip(i as int);
        if i < len {
            assert(cur[0] == s@[i as int]);
        }
        lemma_skip_ws_id(cur);
    }
    i
}

/// Consume whitespace, then a literal token, at a position.
fn tok_at(s: &str, pos: usize, lit: &str) -> (r: Option<usize>)
    requires
        pos <= s@.len(),
    ensures
        match r {
            Some(p2) => tok(s@.skip(pos as int), lit@) == Some(s@.skip(p2 as int)) && pos <= p2
                <= s@.len(),
            None => tok(s@.skip(pos as int), lit@) is None,
        },
{
    let pw = skip_ws_at(s, pos);
    expect_lit(s, pw, lit)
}

/// Consume a key token and its colon, at a position.
fn key_colon_at(s: &str, pos: usize, key: &str) -> (r: Option<usize>)
    requires
        pos <= s@.len(),
    ensures
        match r {
            Some(p2) => key_colon(s@.skip(pos as int), key@) == Some(s@.skip(p2 as int)) && pos
                <= p2 <= s@.len(),
            None => key_colon(s@.skip(pos as int), key@) is None,
        },
{
    match tok_at(s, pos, key) {
        Some(r1) => tok_at(s, r1, ":"),
        None => None,
    }
}

/// Consume a comma, a key token and its colon, at a position.
fn field_at(s: &str, pos: usize, key: &str) -> (r: Option<usize>)
    requires
        pos <= s@.len(),
    ensures
        match r {
            Some(p2) => field(s@.skip(pos as int), key@) == Some(s@.skip(p2 as int)) && pos <= p2
                <= s@.len(),
            None => field(s@.skip(pos as int), key@) is None,
        },
{
    match tok_at(s, pos, ",") {
        Some(r1) => key_colon_at(s, r1, key),
        None => None,
    }
}

/// Consume whitespace, then a JSON string, at a position.
fn tok_string_at(s: &str, pos: usize) -> (r: Option<(String, usize)>)
    requires
        pos <= s@.len(),
    ensures
        match r {
            Some(p) => tok_string(s@.skip(pos as int)) == Some((p.0@, s@.skip(p.1 as int))) && pos
                < p.1 <= s@.len(),
            None => tok_string(s@.skip(pos as int)) is None,
        },
{
    let pw = skip_ws_at(s, pos);
    scan_string_at(s, pw)
}

/// Consume whitespace, then a JSON boolean, at a position.
fn tok_bool_at(s: &str, pos: usize) -> (r: Option<(bool, usize)>)
    requires
        pos <= s@.len(),
    ensures
        match r {
            Some(p) => tok_bool(s@.skip(pos as int)) == Some((p.0, s@.skip(p.1 as int))) && pos
                < p.1 <= s@.len(),
            None => tok_bool(s@.skip(pos as int)) is None,
        },
{
    let pw = skip_ws_at(s, pos);
    scan_bool_at(s, pw)
}

/// Consume whitespace, then a JSON string or `null`, at a position.
fn tok_opt_string_at(s: &str, pos: usize) -> (r: Option<(Option<String>, usize)>)
    requires
        pos <= s@.len(),
    ensures
        match r {
            Some(p) => tok_opt_string(s@.skip(pos as int)) == Some(
                (
                    match p.0 {
                        Some(v) => Some(v@),
                        None => None,
                    },
                    s@.skip(p.1 as int),
                ),
            ) && pos < p.1 <= s@.len(),
            None => tok_opt_string(s@.skip(pos as int)) is None,
        },
{
    let pw = skip_ws_at(s, pos);
    scan_opt_string_at(s, pw)
}

/// Parse the dependency array body at a position of the document.
fn parse_deps_at(s: &str, pos: usize) -> (r: Result<(Vec<(String, String)>, usize), SpmError>)
    requires
        pos <= s@.len(),
    ensures
        match r {
            Ok(p) => scan_deps(s@.skip(pos as int)) == Some((pairs_view(p.0@), s@.skip(
                p.1 as int,
            ))) && pos < p.1 <= s@.len(),
            Err(e) => scan_deps(s@.skip(pos as int)) is None && e == SpmError::MalformedManifest,
        },
    decreases s@.len() - pos,
{
    let len = s.unicode_len();
    let ghost cur = s@.skip(pos as int);
    let t = skip_ws_at(s, pos);
    proof {
        assert(skip_ws(cur) == s@.skip(t as int));
    }
    if t >= len {
        proof {
            assert(skip_ws(cur).len() == 0);
        }
        return Err(SpmError::MalformedManifest);
    }
    proof {
        assert(skip_ws(cur)[0] == s@[t as int]);
    }
    if s.get_char(t) == ']' {
        proof {
            assert(skip_ws(cur).skip(1) =~= s@.skip(t + 1));
            assert(pairs_view(Seq::<(String, String)>::empty()) =~= Seq::<
                (Seq<char>, Seq<char>),
            >::empty());
        }
        return Ok((Vec::new(), t + 1));
    }
    let p1 = match tok_at(s, pos, "{") {
        Some(p) => p,
        None => {
            return Err(SpmError::MalformedManifest);
        },
    };
    let p2 = match key_colon_at(s, p1, "\"url\"") {
        Some(p) => p,
        None => {
            return Err(SpmError::MalformedManifest);
        },
    };
    let (url, p3) = match tok_string_at(s, p2) {
        Some(p) => p,
        None => {
            return Err(SpmError::MalformedManifest);
        },
    };
    let p4 = match field_at(s, p3, "\"version\"") {
        Some(p) => p,
        None => {
            return Err(SpmError::MalformedManifest);
        },
    };
    let (version, p5) = match tok_string_at(s, p4) {
        Some(p) => p,
        None => {
            return Err(SpmError::MalformedManifest);
        },
    };
    let p6 = match tok_at(s, p5, "}") {
        Some(p) => p,
        None => {
            return Err(SpmError::MalformedManifest);
        },
    };
    let ghost pr = ((url@, version@), s@.skip(p6 as int));
    proof {
        assert(scan_dep(cur) == Some(pr));
    }
    let u = skip_ws_at(s, p6);
    proof {
        assert(skip_ws(s@.skip(p6 as int)) == s@.skip(u as int));
        if u < s@.len() {
            assert(s@.skip(u as int)[0] == s@[u as int]);
        }
    }
    if u < len && s.get_char(u) == ',' {
        proof {
            assert(s@.skip(u as int).skip(1) =~= s@.skip(u + 1));
            assert(s@.skip(u + 1).len() < cur.len());
        }
        match parse_deps_at(s, u + 1) {
            Ok((mut ps, p7)) => {
                let ghost tail_pairs = pairs_view(ps@);
                ps.insert(0, (url, version));
                proof {
                    assert(pairs_view(ps@) =~= seq![(url@, version@)] + tail_pairs);
                }
                Ok((ps, p7))
            },
            Err(e) => Err(e),
        }
    } else if u < len && s.get_char(u) == ']' {
        proof {
            assert(s@.skip(u as int).skip(1) =~= s@.skip(u + 1));
        }
        let mut ps: Vec<(String, String)> = Vec::new();
        ps.push((url, version));
        proof {
            assert(pairs_view(ps@) =~= seq![(url@, version@)]);
        }
        Ok((ps, u + 1))
    } else {
        proof {
            if s@.skip(u as int).len() > 0 {
                assert(s@.skip(u as int)[0] == s@[u as int]);
            }
        }
        Err(SpmError::MalformedManifest)
    }
}

/// Build dependencies from scanned `(url, version)` pairs: the slot is
/// derived by the remote rule, or left pending (empty) where that rule
/// cannot derive the url.
fn derive_deps(pairs: &Vec<(String, String)>) -> (ds: Vec<Dependency>)
    ensures
        ds@.map_values(|d: Dependency| dep_model(d)) == derive_pairs(pairs_view(pairs@)),
{
    let ghost ps = pairs_view(pairs@);
    let mut deps_vec: Vec<Dependency> = Vec::new();
    let mut i: usize = 0;
    proof {
        assert(deps_vec@.map_values(|d: Dependency| dep_model(d)) =~= derive_pairs(
            ps.take(0),
        ));
    }
    while i < pairs.len()
        invariant
            0 <= i <= pairs@.len(),
            ps == pairs_view(pairs@),
            ps.len() == pairs@.len(),
            deps_vec@.map_values(|d: Dependency| dep_model(d)) =~= derive_pairs(
                ps.take(i as int),
            ),
        decreases pairs@.len() - i,
    {
        let url = pairs[i].0.clone();
        let ver = pairs[i].1.clone();
        let ghost models_pre = deps_vec@.map_values(|d: Dependency| dep_model(d));
        let d = match Dependency::new(url, ver, false) {
            Ok(d) => d,
            Err(_) => Dependency {
                url: pairs[i].0.clone(),
                version: pairs[i].1.clone(),
                name: String::new(),
                namespace: String::new(),
            },
        };
        proof {
            assert(ps[i as int] == (pairs@[i as int].0@, pairs@[i as int].1@));
            assert(dep_model(d) == derived_or_pending(ps[i as int].0, ps[i as int].1));
        }
        deps_vec.push(d);
        proof {
            assert(deps_vec@.map_values(|x: Dependency| dep_model(x)) =~= models_pre + seq![
                dep_model(d),
            ]);
            assert(ps.take(i + 1) =~= ps.take(i as int).push(ps[i as int]));
            assert(derive_pairs(ps.take(i + 1)) =~= derive_pairs(ps.take(i as int)) + seq![
                derived_or_pending(ps[i as int].0, ps[i as int].1),
            ]);
        }
        i += 1;
    }
    proof {
        assert(ps.take(ps.len() as int) =~= ps);
    }
    deps_vec
}

/// Parse a manifest document: the fields of the form written by
/// [`write_manifest`], in that order, with insignificant whitespace
/// allowed between tokens.  Every dependency's slot is re-derived from
/// its url by the remote rule, so stale persisted slots are ignored, and
/// a url that rule cannot derive (an existing local path with fewer than
/// two segments) keeps an empty, pending slot.  A caller that can probe
/// the disk completes or rejects such slots with
/// [`crate::manifest::Package::rederive_dependencies`].
#[verifier::rlimit(100)]
pub fn parse_manifest(s: &str) -> (r: Result<Package, SpmError>)
    ensures
        match r {
            Ok(p) => spec_parse(s@) == Some(p.model()),
            Err(e) => spec_parse(s@) is None && e == SpmError::MalformedManifest,
        },
{
    proof {
        assert(s@.skip(0) =~= s@);
    }
    let r0 = match tok_at(s, 0, "{") {
        Some(p) => p,
        None => {
            return Err(SpmError::MalformedManifest);
        },
    };
    let r1 = match key_colon_at(s, r0, "\"name\"") {
        Some(p) => p,
        None => {
            return Err(SpmError::MalformedManifest);
        },
    };
    let (name, r2) = match tok_string_at(s, r1) {
        Some(p) => p,
        None => {
            return Err(SpmError::MalformedManifest);
        },
    };
    let r3 = match field_at(s, r2, "\"namespace\"") {
        Some(p) => p,
        None => {
            return Err(SpmError::MalformedManifest);
        },
    };
    let (namespace, r4) = match tok_opt_string_at(s, r3) {
        Some(p) => p,
        None => {
            return Err(SpmError::MalformedManifest);
        },
    };
    let r5 = match field_at(s, r4, "\"description\"") {
        Some(p) => p,
        None => {
            return Err(SpmError::MalformedManifest);
        },
    };
    let (description, r6) = match tok_string_at(s, r5) {
        Some(p) => p,
        None => {
            return Err(SpmError::MalformedManifest);
        },
    };
    let r7 = match field_at(s, r6, "\"version\"") {
        Some(p) => p,
        None => {
            return Err(SpmError::MalformedManifest);
        },
    };
    let (version, r8) = match tok_string_at(s, r7) {
        Some(p) => p,
        None => {
            return Err(SpmError::MalformedManifest);
        },
    };
    let r9 = match field_at(s, r8, "\"interpreter\"") {
        Some(p) => p,
        None => {
            return Err(SpmError::MalformedManifest);
        },
    };
    let (iname, r10) = match tok_string_at(s, r9) {
        Some(p) => p,
        None => {
            return Err(SpmError::MalformedManifest);
        },
    };
    let interpreter = match ShellType::from_exact_name(iname.as_str()) {
        Some(t) => t,
        None => {
            return Err(SpmError::MalformedManifest);
        },
    };
    let r11 = match field_at(s, r10, "\"is_library\"") {
        Some(p) => p,
        None => {
            return Err(SpmError::MalformedManifest);
        },
    };
    let (is_library, r12) = match tok_bool_at(s, r11) {
        Some(p) => p,
        None => {
            return Err(SpmError::MalformedManifest);
        },
    };
    let r13 = match field_at(s, r12, "\"entrypoint\"") {
        Some(p) => p,
        None => {
            return Err(SpmError::MalformedManifest);
        },
    };
    let (entrypoint, r14) = match tok_string_at(s, r13) {
        Some(p) => p,
        None => {
            return Err(SpmError::MalformedManifest);
        },
    };
    let r15a = match field_at(s, r14, "\"install\"") {
        Some(p) => p,
        None => {
            return Err(SpmError::MalformedManifest);
        },
    };
    let r15b = match tok_at(s, r15a, "{") {
        Some(p) => p,
        None => {
            return Err(SpmError::MalformedManifest);
        },
    };
    let r15 = match key_colon_at(s, r15b, "\"setup_script\"") {
        Some(p) => p,
        None => {
            return Err(SpmError::MalformedManifest);
        },
    };
    let (setup_script, r16) = match tok_string_at(s, r15) {
        Some(p) => p,
        None => {
            return Err(SpmError::MalformedManifest);
        },
    };
    let r17 = match field_at(s, r16, "\"register_to_environment_tool\"") {
        Some(p) => p,
        None => {
            return Err(SpmError::MalformedManifest);
        },
    };
    let (register, r18) = match tok_bool_at(s, r17) {
        Some(p) => p,
        None => {
            return Err(SpmError::MalformedManifest);
        },
    };
    let r19a = match tok_at(s, r18, "}") {
        Some(p) => p,
        None => {
            return Err(SpmError::MalformedManifest);
        },
    };
    let r19 = match field_at(s, r19a, "\"uninstall\"") {
        Some(p) => p,
        None => {
            return Err(SpmError::MalformedManifest);
        },
    };
    let (uninstall, r20) = match tok_string_at(s, r19) {
        Some(p) => p,
        None => {
            return Err(SpmError::MalformedManifest);
        },
    };
    let r21a = match field_at(s, r20, "\"dependencies\"") {
        Some(p) => p,
        None => {
            return Err(SpmError::MalformedManifest);
        },
    };
    let r21 = match tok_at(s, r21a, "[") {
        Some(p) => p,
        None => {
            return Err(SpmError::MalformedManifest);
        },
    };
    let (pairs, r22) = match parse_deps_at(s, r21) {
        Ok(p) => p,
        Err(e) => {
            return Err(e);
        },
    };
    let r23 = match tok_at(s, r22, "}") {
        Some(p) => p,
        None => {
            return Err(SpmError::MalformedManifest);
        },
    };
    let r24 = skip_ws_at(s, r23);
    if r24 < s.unicode_len() {
        proof {
            assert(skip_ws(s@.skip(r23 as int)).len() > 0);
        }
        return Err(SpmError::MalformedManifest);
    }
    proof {
        assert(skip_ws(s@.skip(r23 as int)).len() == 0);
    }
    let deps_vec = derive_deps(&pairs);
    let package = Package {
        name,
        namespace,
        description,
        version,
        interpreter,
        is_library,
        entrypoint,
        install: InstallationOptions {
            setup_script,
            register_to_environment_tool: register,
        },
        uninstall,
        dependencies: Dependencies::new(deps_vec),
    };
    proof {
        assert(spec_parse(s@) == Some(package.model()));
    }
    Ok(package)
}

/// Scanning a written dependency array body recovers the pairs.
pub proof fn lemma_scan_deps_round(ps: Seq<(Seq<char>, Seq<char>)>, rest: Seq<char>)
    ensures
        scan_deps(jdeps(ps) + seq![']'] + rest) == Some((ps, rest)),
    decreases ps.len(),
{
    let s = jdeps(ps) + seq![']'] + rest;
    if ps.len() == 0 {
        assert(jdeps(ps) =~= Seq::<char>::empty());
        assert(s =~= seq![']'] + rest);
        assert(s[0] == ']');
        lemma_skip_ws_id(s);
        assert(s.skip(1) =~= rest);
        assert(ps =~= Seq::<(Seq<char>, Seq<char>)>::empty());
    } else if ps.len() == 1 {
        let tail = seq![']'] + rest;
        assert(s =~= jdep(ps[0]) + tail);
        lemma_scan_dep_round(ps[0], tail);
        assert(s[0] == '{');
        lemma_skip_ws_id(s);
        assert(skip_ws(s)[0] != ']');
        assert(tail[0] == ']');
        lemma_skip_ws_id(tail);
        assert(tail.skip(1) =~= rest);
        assert(seq![ps[0]] =~= ps);
    } else {
        let more = jdeps(ps.skip(1)) + seq![']'] + rest;
        let tail = seq![','] + more;
        assert(s =~= jdep(ps[0]) + tail) by {
            assert(jdeps(ps) == jdep(ps[0]) + ","@ + jdeps(ps.skip(1)));
            reveal_strlit(",");
            assert(","@ =~= seq![',']);
        }
        lemma_scan_dep_round(ps[0], tail);
        lemma_scan_dep_len(s);
        assert(s[0] == '{');
        lemma_skip_ws_id(s);
        assert(skip_ws(s)[0] != ']');
        assert(tail[0] == ',');
        lemma_skip_ws_id(tail);
        assert(tail.skip(1) =~= more);
        lemma_scan_deps_round(ps.skip(1), rest);
        assert(scan_deps(s) == Some((seq![ps[0]] + ps.skip(1), rest)));
        assert(seq![ps[0]] + ps.skip(1) =~= ps);
    }
}

} // verus!
