//! The desktop-application name index: parsing the `Exec=` line of
//! desktop-entry files, the `CFBundleExecutable` key of application
//! bundles, and the plain-text cache file the index is kept in (one name
//! per line, stale after an hour).

use vstd::prelude::*;
use crate::textutil::{
    chars_of, chars_to_string, contains_sub, push_chars, spec_find_sub, spec_trim, split_on,
    starts_with, vec_find_sub, vec_split_on, vec_trim, vec_starts_with, vec_eq_chars,
};

verus! {

/// How long the cached name index stays valid: one hour, in seconds.
pub const DESKTOP_CACHE_TTL_SECS: u64 = 3600;

/// Is a cached index written `age_secs` ago still usable?
pub fn desktop_cache_fresh(age_secs: u64) -> (r: bool)
    ensures
        r == (age_secs <= DESKTOP_CACHE_TTL_SECS),
{
    age_secs <= DESKTOP_CACHE_TTL_SECS
}

/// The last path segment: everything after the final '/'.
pub open spec fn spec_basename(p: Seq<char>) -> Seq<char> {
    split_on(p, '/').last()
}

/// The binary a token list names: the first token that is not `env`, not
/// a `VAR=value` assignment and not empty, reduced to its basename;
/// nothing if that basename is empty.
pub open spec fn spec_first_binary(toks: Seq<Seq<char>>) -> Option<Seq<char>>
    decreases toks.len(),
{
    if toks.len() == 0 {
        None
    } else if toks[0].len() == 0 || toks[0] =~= "env"@ || contains_sub(toks[0], "="@) {
        spec_first_binary(toks.drop_first())
    } else if spec_basename(toks[0]).len() > 0 {
        Some(spec_basename(toks[0]))
    } else {
        None
    }
}

/// The binary name a desktop-entry line carries: for a trimmed
/// `Exec=...` line, the first real token's basename (skipping `env`
/// prefixes and environment assignments).
pub open spec fn spec_exec_binary(line: Seq<char>) -> Option<Seq<char>> {
    let t = spec_trim(line);
    if starts_with(t, "Exec="@) {
        spec_first_binary(split_on(t.skip("Exec="@.len() as int), ' '))
    } else {
        None
    }
}

fn basename_of(tok: &Vec<char>) -> (r: Vec<char>)
    ensures
        r@ == spec_basename(tok@),
{
    let parts = vec_split_on(tok, '/');
    proof {
        crate::textutil::lemma_split_on_len(tok@, '/');
        assert(parts@[parts@.len() - 1]@ == split_on(tok@, '/').last());
    }
    let last = &parts[parts.len() - 1];
    let mut r: Vec<char> = Vec::new();
    push_chars(&mut r, last);
    r
}

/// Extract the binary name from one desktop-entry line, when it is the
/// entry's `Exec=` line.
pub fn exec_binary_name(line: &str) -> (r: Option<String>)
    ensures
        match r {
            Some(s) => spec_exec_binary(line@) == Some(s@),
            None => spec_exec_binary(line@) is None,
        },
{
    let lc = chars_of(line);
    let t = vec_trim(&lc);
    let prefix = chars_of("Exec=");
    if !vec_starts_with(&t, &prefix) {
        return None;
    }
    proof {
        assert("Exec="@.len() == 5) by {
            reveal_strlit("Exec=");
        }
    }
    let mut restv: Vec<char> = Vec::new();
    let mut j: usize = 5;
    while j < t.len()
        invariant
            5 <= j <= t@.len(),
            restv@ =~= t@.skip(5).take(j - 5),
        decreases t@.len() - j,
    {
        restv.push(t[j]);
        proof {
            assert(t@.skip(5).take(j - 5 + 1) =~= t@.skip(5).take(j - 5).push(t@[j as int]));
        }
        j = j + 1;
    }
    proof {
        assert(restv@ =~= t@.skip(5));
    }
    let toks = vec_split_on(&restv, ' ');
    let ghost gtoks = split_on(restv@, ' ');
    proof {
        assert(toks@.map_values(|x: Vec<char>| x@) =~= gtoks);
        assert(gtoks.skip(0) =~= gtoks);
    }
    let env_tok = chars_of("env");
    let eq_tok = chars_of("=");
    let n = toks.len();
    let mut i: usize = 0;
    while i < n
        invariant
            i <= n,
            n == toks@.len(),
            gtoks == toks@.map_values(|x: Vec<char>| x@),
            env_tok@ == "env"@,
            eq_tok@ == "="@,
            spec_exec_binary(line@) == spec_first_binary(gtoks),
            spec_first_binary(gtoks) == spec_first_binary(gtoks.skip(i as int)),
        decreases n - i,
    {
        proof {
            assert(gtoks.skip(i as int).drop_first() =~= gtoks.skip(i + 1));
            assert(gtoks.skip(i as int)[0] == gtoks[i as int]);
            assert(toks@[i as int]@ == gtoks[i as int]);
        }
        let tok = &toks[i];
        if tok.len() == 0 || vec_eq_chars(tok, &env_tok) || crate::textutil::vec_contains_sub(
            tok,
            &eq_tok,
        ) {
            i = i + 1;
            continue;
        }
        let b = basename_of(tok);
        if b.len() > 0 {
            return Some(chars_to_string(b));
        }
        return None;
    }
    proof {
        assert(gtoks.skip(n as int) =~= Seq::<Seq<char>>::empty());
    }
    None
}

/// The executable name an application bundle's property list declares:
/// the text between the first `<string>` pair after the first
/// `CFBundleExecutable` key, when non-empty.
pub open spec fn spec_plist_executable(content: Seq<char>) -> Option<Seq<char>> {
    match spec_find_sub(content, "CFBundleExecutable"@) {
        None => None,
        Some(i) => {
            let after = content.skip(i);
            match spec_find_sub(after, "<string>"@) {
                None => None,
                Some(j) => {
                    let val = after.skip(j + "<string>"@.len());
                    match spec_find_sub(val, "</string>"@) {
                        None => None,
                        Some(k) => if k > 0 {
                            Some(val.take(k))
                        } else {
                            None
                        },
                    }
                },
            }
        },
    }
}

/// Extract `CFBundleExecutable` from a property list, scanned as plain
/// text.
pub fn plist_bundle_executable(content: &str) -> (r: Option<String>)
    ensures
        match r {
            Some(s) => spec_plist_executable(content@) == Some(s@),
            None => spec_plist_executable(content@) is None,
        },
{
    let cc = chars_of(content);
    let key = chars_of("CFBundleExecutable");
    let stag = chars_of("<string>");
    let etag = chars_of("</string>");
    let i = match vec_find_sub(&cc, &key) {
        Some(i) => i,
        None => {
            return None;
        },
    };
    proof {
        lemma_find_sub_in_range(cc@, "CFBundleExecutable"@, i as int);
    }
    let mut after: Vec<char> = Vec::new();
    copy_skip(&cc, i, &mut after);
    let j = match vec_find_sub(&after, &stag) {
        Some(j) => j,
        None => {
            return None;
        },
    };
    proof {
        lemma_find_sub_in_range(after@, "<string>"@, j as int);
        assert("<string>"@.len() == 8) by {
            reveal_strlit("<string>");
        }
    }
    let alen = after.len();
    proof {
        assert(j + 8 <= alen);
    }
    let mut val: Vec<char> = Vec::new();
    copy_skip(&after, j + 8, &mut val);
    let k = match vec_find_sub(&val, &etag) {
        Some(k) => k,
        None => {
            return None;
        },
    };
    if k == 0 {
        return None;
    }
    proof {
        lemma_find_sub_in_range(val@, "</string>"@, k as int);
    }
    let mut out: Vec<char> = Vec::new();
    let mut p: usize = 0;
    while p < k
        invariant
            p <= k,
            k <= val@.len(),
            out@ =~= val@.take(p as int),
        decreases k - p,
    {
        out.push(val[p]);
        proof {
            assert(val@.take(p + 1) =~= val@.take(p as int).push(val@[p as int]));
        }
        p = p + 1;
    }
    Some(chars_to_string(out))
}

/// A found match lies inside the haystack.
proof fn lemma_find_sub_in_range(hay: Seq<char>, needle: Seq<char>, i: int)
    requires
        spec_find_sub(hay, needle) == Some(i),
    ensures
        0 <= i,
        i + needle.len() <= hay.len(),
    decreases hay.len(),
{
    if hay.len() < needle.len() {
    } else if hay.take(needle.len() as int) =~= needle {
    } else {
        let r = spec_find_sub(hay.drop_first(), needle);
        match r {
            Some(k) => {
                lemma_find_sub_in_range(hay.drop_first(), needle, k);
            },
            None => {},
        }
    }
}

fn copy_skip(v: &Vec<char>, from: usize, out: &mut Vec<char>)
    requires
        from <= v@.len(),
        old(out)@.len() == 0,
    ensures
        final(out)@ == v@.skip(from as int),
{
    let n = v.len();
    let mut i: usize = from;
    while i < n
        invariant
            from <= i <= n,
            n == v@.len(),
            out@ =~= v@.skip(from as int).take(i - from),
        decreases n - i,
    {
        out.push(v[i]);
        proof {
            assert(v@.skip(from as int).take(i - from + 1) =~= v@.skip(from as int).take(
                i - from,
            ).push(v@[i as int]));
        }
        i = i + 1;
    }
    proof {
        assert(out@ =~= v@.skip(from as int));
    }
}

/// The names a cache file holds: its non-empty lines.
pub open spec fn spec_cache_names(lines: Seq<Seq<char>>) -> Seq<Seq<char>>
    decreases lines.len(),
{
    if lines.len() == 0 {
        Seq::<Seq<char>>::empty()
    } else {
        let rest = spec_cache_names(lines.drop_first());
        if lines[0].len() == 0 {
            rest
        } else {
            seq![lines[0]] + rest
        }
    }
}

/// Parse the name-index cache file: one name per line, empty lines
/// skipped.
pub fn parse_desktop_cache(content: &str) -> (r: Vec<String>)
    ensures
        r@.map_values(|s: String| s@) == spec_cache_names(split_on(content@, '\n')),
{
    let cc = chars_of(content);
    let lines = vec_split_on(&cc, '\n');
    let ghost glines = split_on(content@, '\n');
    proof {
        assert(lines@.map_values(|x: Vec<char>| x@) =~= glines);
        assert(glines.skip(0) =~= glines);
    }
    let n = lines.len();
    let mut out: Vec<String> = Vec::new();
    let mut i: usize = 0;
    while i < n
        invariant
            i <= n,
            n == lines@.len(),
            glines == lines@.map_values(|x: Vec<char>| x@),
            out@.map_values(|s: String| s@) + spec_cache_names(glines.skip(i as int))
                =~= spec_cache_names(glines),
        decreases n - i,
    {
        proof {
            assert(glines.skip(i as int).drop_first() =~= glines.skip(i + 1));
            assert(glines.skip(i as int)[0] == glines[i as int]);
            assert(lines@[i as int]@ == glines[i as int]);
        }
        if lines[i].len() > 0 {
            let ghost out_pre = out@;
            let mut line: Vec<char> = Vec::new();
            push_chars(&mut line, &lines[i]);
            out.push(chars_to_string(line));
            proof {
                assert(out@.map_values(|s: String| s@) =~= out_pre.map_values(|s: String| s@).push(
                    glines[i as int],
                ));
            }
        }
        i = i + 1;
    }
    proof {
        assert(glines.skip(n as int) =~= Seq::<Seq<char>>::empty());
        assert(spec_cache_names(glines.skip(n as int)) =~= Seq::<Seq<char>>::empty());
        assert(out@.map_values(|s: String| s@) =~= spec_cache_names(glines));
    }
    out
}

/// The cache file a name list serializes to: the names joined by
/// newlines.
pub open spec fn spec_cache_render(names: Seq<String>) -> Seq<char>
    decreases names.len(),
{
    if names.len() == 0 {
        Seq::<char>::empty()
    } else if names.len() == 1 {
        names.last()@
    } else {
        spec_cache_render(names.drop_last()) + seq!['\n'] + names.last()@
    }
}

/// Serialize the name index for its cache file.
pub fn render_desktop_cache(names: &Vec<String>) -> (r: String)
    ensures
        r@ == spec_cache_render(names@),
{
    let n = names.len();
    let mut out: Vec<char> = Vec::new();
    let mut i: usize = 0;
    while i < n
        invariant
            i <= n,
            n == names@.len(),
            out@ =~= spec_cache_render(names@.take(i as int)),
        decreases n - i,
    {
        proof {
            assert(names@.take(i + 1).drop_last() =~= names@.take(i as int));
            assert(names@.take(i + 1).last() == names@[i as int]);
        }
        if i > 0 {
            out.push('\n');
        }
        crate::textutil::push_str_chars(&mut out, names[i].as_str());
        i = i + 1;
    }
    assert(names@.take(n as int) =~= names@);
    chars_to_string(out)
}

} // verus!
