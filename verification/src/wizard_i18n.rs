//! The order in which the locale files of the setup wizard are tried.
use vstd::prelude::*;
use crate::text::{trim, ascii_lower, ascii_upper, owned, concat, chars_vec, push_char, to_ascii_lower, to_ascii_upper, trimmed, string_of, prefix_until, lemma_prefix_until};

verus! {

/// `s` with `from` replaced by `to` everywhere.
pub open spec fn replace_char(s: Seq<char>, from: char, to: char) -> Seq<char> {
    s.map_values(|c: char| if c == from { to } else { c })
}

/// The second `-`-separated part of `s`, if `s` has a `-`.
pub open spec fn second_part(s: Seq<char>) -> Option<Seq<char>> {
    let first = prefix_until(s, '-');
    if first.len() < s.len() {
        Some(prefix_until(s.subrange(first.len() as int + 1, s.len() as int), '-'))
    } else {
        None
    }
}

/// Whether `s` is two ASCII characters, that is two bytes of UTF-8 (a
/// single two-byte character is not ASCII and is left alone by upper-casing).
pub open spec fn two_ascii(s: Seq<char>) -> bool {
    s.len() == 2 && (s[0] as u32) < 128 && (s[1] as u32) < 128
}

/// The canonical form of a locale tag: encoding (`.…`) and modifier (`@…`)
/// dropped, `_` read as `-`, the language in lower case, and a region of two
/// ASCII characters in upper case; further parts are dropped.
pub open spec fn canonical_tag_spec(raw: Seq<char>) -> Seq<char> {
    let normalized = replace_char(prefix_until(prefix_until(raw, '.'), '@'), '_', '-');
    let language = prefix_until(normalized, '-').map_values(|c: char| ascii_lower(c));
    match second_part(normalized) {
        Some(region) if region.len() > 0 => language + seq!['-'] + if two_ascii(region) {
            region.map_values(|c: char| ascii_upper(c))
        } else {
            region
        },
        _ => language,
    }
}

/// The first `c`-free prefix of `v[from..]` as a vector.
fn until(v: &Vec<char>, from: usize, c: char) -> (r: Vec<char>)
    requires from <= v@.len(),
    ensures r@ == prefix_until(v@.subrange(from as int, v@.len() as int), c),
{
    let mut r: Vec<char> = Vec::new();
    let mut i: usize = from;
    while i < v.len() && v[i] != c
        invariant
            from <= i <= v@.len(),
            r@ == v@.subrange(from as int, i as int),
            forall|k: int| from <= k < i ==> v@[k] != c,
        decreases v.len() - i,
    {
        r.push(v[i]);
        i = i + 1;
        assert(r@ =~= v@.subrange(from as int, i as int));
    }
    proof {
        let s = v@.subrange(from as int, v@.len() as int);
        lemma_prefix_until(s, c);
        let p = prefix_until(s, c);
        if p.len() < i - from {
            assert(s[p.len() as int] == v@[from + p.len()]);
        } else if p.len() > i - from {
            assert(s[i - from] == v@[i as int]);
        }
        assert(p =~= r@);
    }
    r
}

/// The canonical form of a locale tag (see [`canonical_tag_spec`]).
pub fn canonical_locale_tag(raw: &str) -> (r: String)
    ensures r@ == canonical_tag_spec(raw@),
{
    let v = chars_vec(raw);
    proof { assert(v@.subrange(0, v@.len() as int) =~= v@); }
    let a = until(&v, 0, '.');
    proof { assert(a@.subrange(0, a@.len() as int) =~= a@); }
    let b = until(&a, 0, '@');
    let mut normalized: Vec<char> = Vec::new();
    let mut i: usize = 0;
    while i < b.len()
        invariant
            i <= b@.len(),
            normalized@ == replace_char(b@.subrange(0, i as int), '_', '-'),
        decreases b.len() - i,
    {
        normalized.push(if b[i] == '_' { '-' } else { b[i] });
        i = i + 1;
        assert(normalized@ =~= replace_char(b@.subrange(0, i as int), '_', '-'));
    }
    proof {
        assert(b@.subrange(0, b@.len() as int) =~= b@);
        assert(normalized@.subrange(0, normalized@.len() as int) =~= normalized@);
    }
    let first = until(&normalized, 0, '-');
    let mut out = String::new();
    let mut k: usize = 0;
    while k < first.len()
        invariant
            k <= first@.len(),
            out@ == first@.subrange(0, k as int).map_values(|c: char| ascii_lower(c)),
        decreases first.len() - k,
    {
        push_char(&mut out, to_ascii_lower(first[k]));
        k = k + 1;
        assert(out@ =~= first@.subrange(0, k as int).map_values(|c: char| ascii_lower(c)));
    }
    proof {
        assert(first@.subrange(0, first@.len() as int) =~= first@);
        lemma_prefix_until(normalized@, '-');
    }
    let ghost nz = replace_char(prefix_until(prefix_until(raw@, '.'), '@'), '_', '-');
    assert(a@ == prefix_until(raw@, '.'));
    assert(b@ == prefix_until(a@, '@'));
    assert(normalized@ == nz);
    assert(out@ == prefix_until(nz, '-').map_values(|c: char| ascii_lower(c)));
    if first.len() < normalized.len() {
        let region = until(&normalized, first.len() + 1, '-');
        assert(second_part(nz) == Some(region@));
        if region.len() > 0 {
            push_char(&mut out, '-');
            let region_text = string_of(&region, 0, region.len());
            proof { assert(region@.subrange(0, region@.len() as int) =~= region@); }
            if region.len() == 2 && (region[0] as u32) < 128 && (region[1] as u32) < 128 {
                let ghost before = out@;
                let mut j: usize = 0;
                while j < region.len()
                    invariant
                        j <= region@.len(),
                        out@ == before + region@.subrange(0, j as int).map_values(|c: char| ascii_upper(c)),
                    decreases region.len() - j,
                {
                    push_char(&mut out, to_ascii_upper(region[j]));
                    j = j + 1;
                    assert(out@ =~= before + region@.subrange(0, j as int).map_values(|c: char| ascii_upper(c)));
                }
                proof { assert(region@.subrange(0, region@.len() as int) =~= region@); }
                assert(out@ =~= canonical_tag_spec(raw@));
            } else {
                out.append(region_text.as_str());
                assert(out@ =~= canonical_tag_spec(raw@));
            }
        } else {
            assert(out@ =~= canonical_tag_spec(raw@));
        }
    } else {
        assert(second_part(nz) is None);
    }
    out
}

/// `out` with `c` added at the end unless it is already there.
pub open spec fn push_unique(out: Seq<Seq<char>>, c: Seq<char>) -> Seq<Seq<char>> {
    if out.contains(c) { out } else { out.push(c) }
}

/// The locale files tried for `locale`, in order and without repeats: the
/// trimmed locale, its canonical form, its primary language (`primary`),
/// then `en-GB` and `en`. A blank locale tries only the English ones.
pub open spec fn candidates_spec(locale: Seq<char>, primary: Seq<char>) -> Seq<Seq<char>> {
    let t = trim(locale);
    let c = canonical_tag_spec(t);
    let head: Seq<Seq<char>> = if t.len() == 0 {
        Seq::empty()
    } else {
        let s1 = seq![t + ".json"@];
        let s2 = if c != t { push_unique(s1, c + ".json"@) } else { s1 };
        push_unique(s2, primary + ".json"@)
    };
    push_unique(push_unique(head, "en-GB.json"@), "en.json"@)
}

fn push_candidate(out: &mut Vec<String>, candidate: String)
    ensures final(out)@.map_values(|s: String| s@) == push_unique(old(out)@.map_values(|s: String| s@), candidate@),
{
    let ghost before = out@.map_values(|s: String| s@);
    let mut i: usize = 0;
    while i < out.len()
        invariant
            before == out@.map_values(|s: String| s@),
            i <= out@.len(),
            forall|j: int| 0 <= j < i ==> #[trigger] out@[j]@ != candidate@,
        decreases out.len() - i,
    {
        if out[i] == candidate {
            assert(before[i as int] == candidate@);
            return;
        }
        i = i + 1;
    }
    proof {
        assert forall|j: int| 0 <= j < before.len() implies before[j] != candidate@ by {
            assert(before[j] == out@[j]@);
        }
    }
    out.push(candidate);
    assert(out@.map_values(|s: String| s@) =~= before.push(candidate@));
}

/// The locale files tried for `locale` (see [`candidates_spec`]); `primary`
/// is the primary language of the locale, as the operator's locale
/// normalization gives it.
pub fn locale_candidates(locale: &str, primary: &str) -> (r: Vec<String>)
    ensures r@.map_values(|s: String| s@) == candidates_spec(locale@, primary@),
{
    let mut out: Vec<String> = Vec::new();
    let t = trimmed(locale);
    if t.as_str().unicode_len() > 0 {
        assert(out@.map_values(|s: String| s@) =~= Seq::<Seq<char>>::empty());
        push_candidate(&mut out, concat(t.as_str(), ".json"));
        assert(out@.map_values(|s: String| s@) =~= seq![t@ + ".json"@]);
        let canonical = canonical_locale_tag(t.as_str());
        if canonical != t {
            push_candidate(&mut out, concat(canonical.as_str(), ".json"));
        }
        push_candidate(&mut out, concat(primary, ".json"));
    } else {
        assert(out@.map_values(|s: String| s@) =~= Seq::<Seq<char>>::empty());
    }
    push_candidate(&mut out, concat("en-GB", ".json"));
    push_candidate(&mut out, concat("en", ".json"));
    proof {
        assert(("en-GB"@ + ".json"@) =~= "en-GB.json"@) by { reveal_strlit("en-GB"); reveal_strlit(".json"); reveal_strlit("en-GB.json"); }
        assert(("en"@ + ".json"@) =~= "en.json"@) by { reveal_strlit("en"); reveal_strlit(".json"); reveal_strlit("en.json"); }
    }
    out
}

/// The first of `cands[i..]` that is among `available`.
pub open spec fn first_available(cands: Seq<Seq<char>>, available: Seq<Seq<char>>, i: int) -> Option<Seq<char>>
    decreases cands.len() - i,
{
    if i < 0 || i >= cands.len() {
        None
    } else if available.contains(cands[i]) {
        Some(cands[i])
    } else {
        first_available(cands, available, i + 1)
    }
}

fn listed(names: &Vec<String>, name: &String) -> (r: bool)
    ensures r == names@.map_values(|s: String| s@).contains(name@),
{
    let ghost view = names@.map_values(|s: String| s@);
    let mut i: usize = 0;
    while i < names.len()
        invariant
            view == names@.map_values(|s: String| s@),
            i <= names@.len(),
            forall|j: int| 0 <= j < i ==> #[trigger] names@[j]@ != name@,
        decreases names.len() - i,
    {
        if names[i] == *name {
            assert(view[i as int] == name@);
            return true;
        }
        i = i + 1;
    }
    assert forall|j: int| 0 <= j < view.len() implies view[j] != name@ by {
        assert(view[j] == names@[j]@);
    }
    false
}

/// The locale file read for `locale`: the first of its candidates (see
/// [`candidates_spec`]) among the names of the `available` locale files, or
/// `None` when there is none, in which case no translation is loaded. A
/// non-blank locale whose own file is available is read before any other.
pub fn locale_file(locale: &str, primary: &str, available: &Vec<String>) -> (r: Option<String>)
    ensures
        match r {
            Some(f) => first_available(candidates_spec(locale@, primary@), available@.map_values(|s: String| s@), 0) == Some(f@),
            None => first_available(candidates_spec(locale@, primary@), available@.map_values(|s: String| s@), 0) is None,
        },
        trim(locale@).len() > 0 && available@.map_values(|s: String| s@).contains(trim(locale@) + ".json"@)
            ==> (r matches Some(f) && f@ == trim(locale@) + ".json"@),
{
    let cands = locale_candidates(locale, primary);
    let ghost cv = cands@.map_values(|s: String| s@);
    let ghost av = available@.map_values(|s: String| s@);
    proof {
        let t = trim(locale@);
        if t.len() > 0 {
            let s1 = seq![t + ".json"@];
            let c = canonical_tag_spec(t);
            let s2 = if c != t { push_unique(s1, c + ".json"@) } else { s1 };
            let head = push_unique(s2, primary@ + ".json"@);
            assert(s2.len() > 0 && s2[0] == t + ".json"@);
            assert(head.len() > 0 && head[0] == t + ".json"@);
            let h2 = push_unique(head, "en-GB.json"@);
            assert(h2.len() > 0 && h2[0] == t + ".json"@);
            assert(cv[0] == t + ".json"@);
        }
    }
    let mut i: usize = 0;
    while i < cands.len()
        invariant
            cv == cands@.map_values(|s: String| s@),
            av == available@.map_values(|s: String| s@),
            cv == candidates_spec(locale@, primary@),
            i <= cands@.len(),
            first_available(cv, av, 0) == first_available(cv, av, i as int),
            trim(locale@).len() > 0 && av.contains(trim(locale@) + ".json"@)
                ==> first_available(cv, av, 0) == Some(trim(locale@) + ".json"@),
        decreases cands.len() - i,
    {
        if listed(available, &cands[i]) {
            assert(cv[i as int] == cands@[i as int]@);
            return Some(owned(cands[i].as_str()));
        }
        i = i + 1;
    }
    None
}

} // verus!

verus! {

proof fn lemma_push_unique(out: Seq<Seq<char>>, c: Seq<char>)
    requires out.no_duplicates(),
    ensures
        push_unique(out, c).no_duplicates(),
        push_unique(out, c).contains(c),
        forall|x: Seq<char>| out.contains(x) ==> push_unique(out, c).contains(x),
{
    if !out.contains(c) {
        let r = out.push(c);
        assert forall|i: int, j: int| 0 <= i < r.len() && 0 <= j < r.len() && i != j implies r[i] != r[j] by {
            if i == out.len() as int {
                assert(!out.contains(r[j]) || r[j] != c);
            } else if j == out.len() as int {
                if r[i] == c { assert(out.contains(c)); }
            }
        }
        assert forall|x: Seq<char>| out.contains(x) implies r.contains(x) by {
            let k = choose|k: int| 0 <= k < out.len() && out[k] == x;
            assert(r[k] == x);
        }
        assert(r[out.len() as int] == c);
    }
}

/// The locale files tried never repeat, and always end up trying `en-GB`
/// and `en`.
pub proof fn lemma_candidates_distinct(locale: Seq<char>, primary: Seq<char>)
    ensures
        candidates_spec(locale, primary).no_duplicates(),
        candidates_spec(locale, primary).contains("en-GB.json"@),
        candidates_spec(locale, primary).contains("en.json"@),
{
    let t = trim(locale);
    let c = canonical_tag_spec(t);
    let head: Seq<Seq<char>> = if t.len() == 0 {
        Seq::empty()
    } else {
        let s1 = seq![t + ".json"@];
        let s2 = if c != t { push_unique(s1, c + ".json"@) } else { s1 };
        push_unique(s2, primary + ".json"@)
    };
    if t.len() > 0 {
        let s1 = seq![t + ".json"@];
        assert(s1.no_duplicates());
        if c != t {
            lemma_push_unique(s1, c + ".json"@);
        }
        let s2 = if c != t { push_unique(s1, c + ".json"@) } else { s1 };
        lemma_push_unique(s2, primary + ".json"@);
    }
    assert(head.no_duplicates());
    lemma_push_unique(head, "en-GB.json"@);
    lemma_push_unique(push_unique(head, "en-GB.json"@), "en.json"@);
}

} // verus!
