//! Verified string utilities shared by the whole library: splitting,
//! case normalization, suffix handling and path-segment extraction.

use vstd::prelude::*;

verus! {

/// True for an ASCII uppercase letter.  All case handling in this
/// library is ASCII-only: letters outside ASCII pass through lowercasing
/// and name normalization unchanged.
pub open spec fn is_upper(c: char) -> bool {
    'A' <= c && c <= 'Z'
}

/// The ASCII lowercase counterpart of a character; every other
/// character, non-ASCII letters included, is unchanged.
pub open spec fn lower_char(c: char) -> char {
    if is_upper(c) {
        (c as u8 + 32) as char
    } else {
        c
    }
}

/// Lowercase an ASCII uppercase letter; leave every other character unchanged.
pub fn lower_char_exec(c: char) -> (r: char)
    ensures
        r == lower_char(c),
{
    if 'A' <= c && c <= 'Z' {
        (c as u8 + 32) as char
    } else {
        c
    }
}

/// Appends one character to a string.
///
/// Relies on `String::push`, which appends exactly the given character.
#[verifier::external_body]
pub fn push_char(s: &mut String, c: char)
    ensures
        final(s)@ == old(s)@.push(c),
{
    s.push(c);
}

/// Whether two string slices hold the same characters.
pub fn str_eq(a: &str, b: &str) -> (r: bool)
    ensures
        r == (a@ == b@),
{
    let alen = a.unicode_len();
    let blen = b.unicode_len();
    if alen != blen {
        assert(a@ != b@) by {
            assert(a@.len() != b@.len());
        }
        return false;
    }
    let mut i: usize = 0;
    while i < alen
        invariant
            0 <= i <= alen,
            alen == a@.len(),
            alen == b@.len(),
            forall|j: int| 0 <= j < i ==> a@[j] == b@[j],
        decreases alen - i,
    {
        if a.get_char(i) != b.get_char(i) {
            return false;
        }
        i += 1;
    }
    proof {
        assert(a@ =~= b@);
    }
    true
}

/// Whether the sequence holds the given character.
pub open spec fn has_char(s: Seq<char>, c: char) -> bool {
    exists|i: int| 0 <= i < s.len() && s[i] == c
}

/// Whether the string holds the given character.
pub fn contains_char(s: &str, c: char) -> (r: bool)
    ensures
        r == has_char(s@, c),
{
    let len = s.unicode_len();
    let mut i: usize = 0;
    while i < len
        invariant
            0 <= i <= len,
            len == s@.len(),
            forall|j: int| 0 <= j < i ==> s@[j] != c,
        decreases len - i,
    {
        if s.get_char(i) == c {
            return true;
        }
        i += 1;
    }
    false
}

/// Whether `hay` holds `needle` as a contiguous run of characters.
pub open spec fn has_substr(hay: Seq<char>, needle: Seq<char>) -> bool {
    exists|i: int|
        0 <= i <= hay.len() - needle.len() && #[trigger] hay.subrange(i, i + needle.len() as int)
            =~= needle
}

/// Whether `hay` holds `needle` as a contiguous run of characters.
pub fn contains_substr(hay: &str, needle: &str) -> (r: bool)
    ensures
        r == has_substr(hay@, needle@),
{
    let hlen = hay.unicode_len();
    let nlen = needle.unicode_len();
    if nlen > hlen {
        return false;
    }
    if nlen == 0 {
        proof {
            assert(hay@.subrange(0, 0 + needle@.len() as int) =~= needle@);
        }
        return true;
    }
    let mut i: usize = 0;
    while i <= hlen - nlen
        invariant
            0 <= i <= hlen - nlen + 1,
            1 <= nlen <= hlen,
            hlen == hay@.len(),
            nlen == needle@.len(),
            forall|k: int|
                0 <= k < i ==> #[trigger] hay@.subrange(k, k + needle@.len() as int) !~= needle@,
        decreases hlen - i,
    {
        let mut j: usize = 0;
        let mut matched = true;
        while matched && j < nlen
            invariant
                0 <= j <= nlen,
                0 <= i <= hlen - nlen,
                hlen == hay@.len(),
                nlen == needle@.len(),
                matched ==> forall|k: int| 0 <= k < j ==> hay@[i + k] == needle@[k],
                !matched ==> hay@.subrange(i as int, i + needle@.len() as int) !~= needle@,
            decreases (if matched { nlen - j + 1 } else { 0 }),
        {
            if hay.get_char(i + j) != needle.get_char(j) {
                matched = false;
                proof {
                    let sub = hay@.subrange(i as int, i + needle@.len() as int);
                    assert(sub[j as int] != needle@[j as int]);
                }
            } else {
                j += 1;
            }
        }
        if matched {
            proof {
                let sub = hay@.subrange(i as int, i + needle@.len() as int);
                assert(forall|k: int| 0 <= k < needle@.len() ==> sub[k] == hay@[i + k]);
                assert(sub =~= needle@);
            }
            return true;
        }
        i += 1;
    }
    false
}

/// Whether `s` ends with `suffix`.
pub open spec fn ends_with(s: Seq<char>, suffix: Seq<char>) -> bool {
    s.len() >= suffix.len() && s.subrange(s.len() - suffix.len(), s.len() as int) =~= suffix
}

/// Whether the string ends with the given suffix.
pub fn ends_with_str(s: &str, suffix: &str) -> (r: bool)
    ensures
        r == ends_with(s@, suffix@),
{
    let slen = s.unicode_len();
    let xlen = suffix.unicode_len();
    if xlen > slen {
        return false;
    }
    let mut j: usize = 0;
    while j < xlen
        invariant
            0 <= j <= xlen,
            xlen <= slen,
            slen == s@.len(),
            xlen == suffix@.len(),
            forall|k: int| 0 <= k < j ==> s@[s@.len() - suffix@.len() + k] == suffix@[k],
        decreases xlen - j,
    {
        if s.get_char(slen - xlen + j) != suffix.get_char(j) {
            proof {
                assert(s@.subrange(s@.len() - suffix@.len(), s@.len() as int)[j as int]
                    != suffix@[j as int]);
            }
            return false;
        }
        j += 1;
    }
    proof {
        assert(s@.subrange(s@.len() - suffix@.len(), s@.len() as int) =~= suffix@);
    }
    true
}

/// Whether `s` starts with `prefix`.
pub open spec fn starts_with(s: Seq<char>, prefix: Seq<char>) -> bool {
    s.len() >= prefix.len() && s.subrange(0, prefix.len() as int) =~= prefix
}

/// Whether the string starts with the given prefix.
pub fn starts_with_str(s: &str, prefix: &str) -> (r: bool)
    ensures
        r == starts_with(s@, prefix@),
{
    let slen = s.unicode_len();
    let plen = prefix.unicode_len();
    if plen > slen {
        return false;
    }
    let mut j: usize = 0;
    while j < plen
        invariant
            0 <= j <= plen,
            plen <= slen,
            slen == s@.len(),
            plen == prefix@.len(),
            forall|k: int| 0 <= k < j ==> s@[k] == prefix@[k],
        decreases plen - j,
    {
        if s.get_char(j) != prefix.get_char(j) {
            proof {
                assert(s@.subrange(0, prefix@.len() as int)[j as int] != prefix@[j as int]);
            }
            return false;
        }
        j += 1;
    }
    proof {
        assert(s@.subrange(0, prefix@.len() as int) =~= prefix@);
    }
    true
}

/// The pieces of `s` delimited by `sep`: always one more piece than there
/// are separators, so the empty sequence splits into one empty piece.
pub open spec fn split_chars(s: Seq<char>, sep: char) -> Seq<Seq<char>>
    decreases s.len(),
{
    if s.len() == 0 {
        seq![Seq::<char>::empty()]
    } else if s[0] == sep {
        seq![Seq::<char>::empty()] + split_chars(s.skip(1), sep)
    } else {
        let rest = split_chars(s.skip(1), sep);
        seq![seq![s[0]] + rest[0]] + rest.skip(1)
    }
}

/// Splitting always yields at least one piece.
pub proof fn lemma_split_nonempty(s: Seq<char>, sep: char)
    ensures
        split_chars(s, sep).len() >= 1,
    decreases s.len(),
{
    if s.len() != 0 {
        lemma_split_nonempty(s.skip(1), sep);
    }
}

/// A separator-free sequence splits into exactly itself.
pub proof fn lemma_split_no_sep(s: Seq<char>, sep: char)
    requires
        !has_char(s, sep),
    ensures
        split_chars(s, sep) =~= seq![s],
    decreases s.len(),
{
    if s.len() == 0 {
        assert(split_chars(s, sep) == seq![Seq::<char>::empty()]);
        assert(s =~= Seq::<char>::empty());
    } else {
        assert(s[0] != sep);
        assert(!has_char(s.skip(1), sep)) by {
            assert(forall|i: int|
                0 <= i < s.skip(1).len() ==> s.skip(1)[i] == s[i + 1] && s[i + 1] != sep);
        }
        lemma_split_no_sep(s.skip(1), sep);
        let rest = split_chars(s.skip(1), sep);
        assert(rest =~= seq![s.skip(1)]);
        assert(seq![s[0]] + rest[0] =~= s);
        assert(rest.skip(1) =~= Seq::<Seq<char>>::empty());
        assert(split_chars(s, sep) =~= seq![s]);
    }
}

/// Splitting a sequence that starts with a separator-free piece, then a
/// separator, yields that piece followed by the split of the remainder.
pub proof fn lemma_split_first_sep(a: Seq<char>, b: Seq<char>, sep: char)
    requires
        !has_char(a, sep),
    ensures
        split_chars(a + seq![sep] + b, sep) =~= seq![a] + split_chars(b, sep),
    decreases a.len(),
{
    let s = a + seq![sep] + b;
    if a.len() == 0 {
        assert(s[0] == sep);
        assert(s.skip(1) =~= b);
        assert(split_chars(s, sep) == seq![Seq::<char>::empty()] + split_chars(b, sep));
        assert(a =~= Seq::<char>::empty());
    } else {
        assert(s[0] == a[0]);
        assert(a[0] != sep);
        assert(!has_char(a.skip(1), sep)) by {
            assert(forall|i: int|
                0 <= i < a.skip(1).len() ==> a.skip(1)[i] == a[i + 1] && a[i + 1] != sep);
        }
        lemma_split_first_sep(a.skip(1), b, sep);
        assert(s.skip(1) =~= a.skip(1) + seq![sep] + b);
        let rest = split_chars(s.skip(1), sep);
        assert(rest =~= seq![a.skip(1)] + split_chars(b, sep));
        lemma_split_nonempty(b, sep);
        assert(rest[0] == a.skip(1));
        assert(seq![s[0]] + rest[0] =~= a);
        assert(rest.skip(1) =~= split_chars(b, sep));
    }
}

/// The sequence lowercased character by character, ASCII letters only.
pub open spec fn lower_chars(s: Seq<char>) -> Seq<char> {
    s.map_values(|c: char| lower_char(c))
}

/// Lowercase every ASCII uppercase letter of a string; other characters
/// are kept as they are.
pub fn lower_str(s: &str) -> (r: String)
    ensures
        r@ =~= lower_chars(s@),
{
    let len = s.unicode_len();
    let mut r = String::new();
    let mut i: usize = 0;
    while i < len
        invariant
            0 <= i <= len,
            len == s@.len(),
            r@ =~= lower_chars(s@).take(i as int),
        decreases len - i,
    {
        let c = lower_char_exec(s.get_char(i));
        push_char(&mut r, c);
        i += 1;
    }
    r
}

/// What one character of a raw name contributes to the normalized name:
/// underscores become hyphens, ASCII uppercase letters become a hyphen
/// followed by the lowercase letter, everything else — non-ASCII
/// uppercase letters included — is kept as it is.
pub open spec fn normal_char(c: char) -> Seq<char> {
    if c == '_' {
        seq!['-']
    } else if is_upper(c) {
        seq!['-', lower_char(c)]
    } else {
        seq![c]
    }
}

/// The concatenation of the contributions of every character.
pub open spec fn normal_chars(s: Seq<char>) -> Seq<char>
    decreases s.len(),
{
    if s.len() == 0 {
        Seq::<char>::empty()
    } else {
        normal_chars(s.drop_last()) + normal_char(s.last())
    }
}

/// The sequence with every leading occurrence of `c` removed.
pub open spec fn trim_leading(s: Seq<char>, c: char) -> Seq<char>
    decreases s.len(),
{
    if s.len() > 0 && s[0] == c {
        trim_leading(s.skip(1), c)
    } else {
        s
    }
}

/// A name normalized for lookup: underscores become hyphens, each ASCII
/// uppercase letter becomes a hyphen plus its lowercase form, and leading
/// hyphens are removed.
pub open spec fn normal_name(s: Seq<char>) -> Seq<char> {
    trim_leading(normal_chars(s), '-')
}

/// Normalize a raw name: expand every character and strip leading hyphens.
pub fn normalize_chars(s: &str) -> (r: String)
    ensures
        r@ =~= normal_name(s@),
{
    let len = s.unicode_len();
    let mut t = String::new();
    let mut i: usize = 0;
    proof {
        assert(s@.take(0) =~= Seq::<char>::empty());
    }
    while i < len
        invariant
            0 <= i <= len,
            len == s@.len(),
            t@ =~= normal_chars(s@.take(i as int)),
        decreases len - i,
    {
        let c = s.get_char(i);
        if c == '_' {
            push_char(&mut t, '-');
        } else if 'A' <= c && c <= 'Z' {
            push_char(&mut t, '-');
            push_char(&mut t, lower_char_exec(c));
        } else {
            push_char(&mut t, c);
        }
        proof {
            let pre = s@.take(i as int);
            let post = s@.take(i + 1);
            assert(post.drop_last() =~= pre);
            assert(post.last() == s@[i as int]);
            assert(normal_chars(post) == normal_chars(pre) + normal_char(s@[i as int]));
            assert(t@ =~= normal_chars(pre) + normal_char(s@[i as int]));
        }
        i += 1;
    }
    proof {
        assert(s@.take(len as int) =~= s@);
    }
    let tlen = t.as_str().unicode_len();
    let mut k: usize = 0;
    proof {
        assert(t@.skip(0) =~= t@);
    }
    while k < tlen && t.as_str().get_char(k) == '-'
        invariant
            0 <= k <= tlen,
            tlen == t@.len(),
            t@ =~= normal_chars(s@),
            trim_leading(t@, '-') == trim_leading(t@.skip(k as int), '-'),
        decreases tlen - k,
    {
        proof {
            assert(t@.skip(k as int)[0] == t@[k as int]);
            assert(t@.skip(k as int).skip(1) =~= t@.skip(k + 1));
        }
        k += 1;
    }
    let r = t.as_str().substring_char(k, tlen).to_owned();
    proof {
        assert(r@ =~= t@.skip(k as int));
        if k < tlen {
            assert(t@.skip(k as int)[0] == t@[k as int]);
            assert(t@[k as int] != '-');
        }
        assert(trim_leading(t@.skip(k as int), '-') == t@.skip(k as int));
    }
    r
}

/// Whether the sequence ends in the four characters `.git`.
pub open spec fn is_git_suffix(s: Seq<char>) -> bool {
    s.len() >= 4 && s[s.len() - 4] == '.' && s[s.len() - 3] == 'g' && s[s.len() - 2] == 'i' && s[
        s.len() - 1] == 't'
}

/// The sequence with every trailing `.git` run removed.
pub open spec fn strip_git(s: Seq<char>) -> Seq<char>
    decreases s.len(),
{
    if is_git_suffix(s) {
        strip_git(s.take(s.len() - 4))
    } else {
        s
    }
}

/// Remove every trailing `.git` suffix from a repository name.
pub fn strip_git_suffix(s: &str) -> (r: String)
    ensures
        r@ =~= strip_git(s@),
{
    let len = s.unicode_len();
    let mut end: usize = len;
    proof {
        assert(s@.take(len as int) =~= s@);
    }
    while end >= 4 && s.get_char(end - 4) == '.' && s.get_char(end - 3) == 'g' && s.get_char(
        end - 2,
    ) == 'i' && s.get_char(end - 1) == 't'
        invariant
            0 <= end <= len,
            len == s@.len(),
            strip_git(s@) == strip_git(s@.take(end as int)),
        decreases end,
    {
        proof {
            let cur = s@.take(end as int);
            assert(is_git_suffix(cur));
            assert(cur.take(cur.len() - 4) =~= s@.take(end - 4));
        }
        end = end - 4;
    }
    let r = s.substring_char(0, end).to_owned();
    proof {
        let cur = s@.take(end as int);
        assert(!is_git_suffix(cur));
        assert(r@ =~= cur);
    }
    r
}

/// The index of the last occurrence of `c`, if any.
pub open spec fn rfind(s: Seq<char>, c: char) -> Option<int>
    decreases s.len(),
{
    if s.len() == 0 {
        None
    } else if s.last() == c {
        Some(s.len() - 1)
    } else {
        rfind(s.drop_last(), c)
    }
}

/// Find the last occurrence of a character in a string.
pub fn rfind_char(s: &str, c: char) -> (r: Option<usize>)
    ensures
        match r {
            Some(i) => rfind(s@, c) == Some(i as int) && i < s@.len(),
            None => rfind(s@, c) is None,
        },
{
    let len = s.unicode_len();
    let mut j: usize = len;
    proof {
        assert(s@.take(len as int) =~= s@);
    }
    while j > 0
        invariant
            0 <= j <= len,
            len == s@.len(),
            rfind(s@, c) == rfind(s@.take(j as int), c),
        decreases j,
    {
        if s.get_char(j - 1) == c {
            proof {
                let cur = s@.take(j as int);
                assert(cur.last() == s@[j - 1]);
            }
            return Some(j - 1);
        }
        proof {
            let cur = s@.take(j as int);
            assert(cur.last() == s@[j - 1]);
            assert(cur.drop_last() =~= s@.take(j - 1));
        }
        j = j - 1;
    }
    proof {
        assert(s@.take(0) =~= Seq::<char>::empty());
    }
    None
}

/// The file name without its extension: everything before the last dot,
/// unless that dot is the first character.
pub open spec fn stem_of(s: Seq<char>) -> Seq<char> {
    match rfind(s, '.') {
        Some(i) => if i > 0 {
            s.take(i)
        } else {
            s
        },
        None => s,
    }
}

/// Strip the extension from a file name.
pub fn file_stem(s: &str) -> (r: String)
    ensures
        r@ =~= stem_of(s@),
{
    match rfind_char(s, '.') {
        Some(i) => {
            if i > 0 {
                s.substring_char(0, i).to_owned()
            } else {
                s.to_owned()
            }
        },
        None => s.to_owned(),
    }
}

/// The last non-empty piece of a sequence of pieces, if any.
pub open spec fn last_nonempty(parts: Seq<Seq<char>>) -> Option<Seq<char>>
    decreases parts.len(),
{
    if parts.len() == 0 {
        None
    } else if parts.last().len() > 0 {
        Some(parts.last())
    } else {
        last_nonempty(parts.drop_last())
    }
}

/// The last non-empty `/`-delimited segment of a path, if any.
pub open spec fn last_path_segment(s: Seq<char>) -> Option<Seq<char>> {
    last_nonempty(split_chars(s, '/'))
}

/// Extract the last non-empty `/`-delimited segment of a path.
pub fn last_segment(s: &str) -> (r: Option<String>)
    ensures
        match r {
            Some(seg) => last_path_segment(s@) == Some(seg@),
            None => last_path_segment(s@) is None,
        },
{
    let parts = split_str(s, '/');
    let ghost vs = views_of(parts@);
    let mut j: usize = parts.len();
    proof {
        assert(vs.take(j as int) =~= vs);
    }
    while j > 0
        invariant
            0 <= j <= parts@.len(),
            vs == views_of(parts@),
            vs == split_chars(s@, '/'),
            vs.len() == parts@.len(),
            last_nonempty(vs) == last_nonempty(vs.take(j as int)),
        decreases j,
    {
        let seg = &parts[j - 1];
        if seg.as_str().unicode_len() > 0 {
            proof {
                let cur = vs.take(j as int);
                assert(cur.last() == vs[j - 1]);
                assert(vs[j - 1] == parts@[j - 1]@);
                assert(seg@ == parts@[j - 1]@);
                assert(cur.last().len() > 0);
                assert(last_nonempty(cur) == Some(cur.last()));
                assert(vs == split_chars(s@, '/'));
                assert(last_path_segment(s@) == last_nonempty(split_chars(s@, '/')));
                assert(last_path_segment(s@) == Some(seg@));
            }
            let out = seg.clone();
            proof {
                assert(out@ == seg@);
            }
            return Some(out);
        }
        proof {
            let cur = vs.take(j as int);
            assert(cur.last() == vs[j - 1]);
            assert(cur.drop_last() =~= vs.take(j - 1));
        }
        j = j - 1;
    }
    proof {
        assert(vs.take(0) =~= Seq::<Seq<char>>::empty());
    }
    None
}

/// The views of a vector of strings.
pub open spec fn views_of(parts: Seq<String>) -> Seq<Seq<char>> {
    parts.map_values(|p: String| p@)
}

/// Split a string at every occurrence of `sep`.
pub fn split_str(s: &str, sep: char) -> (parts: Vec<String>)
    ensures
        views_of(parts@) =~= split_chars(s@, sep),
        parts@.len() >= 1,
{
    let len = s.unicode_len();
    let mut parts: Vec<String> = Vec::new();
    let mut start: usize = 0;
    let mut i: usize = 0;
    proof {
        assert(s@.skip(0) =~= s@);
        assert(views_of(parts@) =~= Seq::<Seq<char>>::empty());
    }
    while i < len
        invariant
            0 <= start <= i <= len,
            len == s@.len(),
            forall|k: int| start <= k < i ==> s@[k] != sep,
            split_chars(s@, sep) =~= views_of(parts@) + split_chars(s@.skip(start as int), sep),
        decreases len - i,
    {
        if s.get_char(i) == sep {
            let piece = s.substring_char(start, i).to_owned();
            proof {
                let seg = s@.subrange(start as int, i as int);
                assert(!has_char(seg, sep));
                assert(s@.skip(start as int) =~= seg + seq![sep] + s@.skip(i + 1));
                lemma_split_first_sep(seg, s@.skip(i + 1), sep);
            }
            parts.push(piece);
            proof {
                assert(views_of(parts@) =~= views_of(parts@.drop_last()) + seq![
                    s@.subrange(start as int, i as int),
                ]);
            }
            start = i + 1;
        }
        i += 1;
    }
    let piece = s.substring_char(start, len).to_owned();
    proof {
        let seg = s@.subrange(start as int, len as int);
        assert(seg =~= s@.skip(start as int));
        assert(!has_char(seg, sep));
        lemma_split_no_sep(seg, sep);
    }
    parts.push(piece);
    proof {
        assert(views_of(parts@) =~= views_of(parts@.drop_last()) + seq![
            s@.subrange(start as int, len as int),
        ]);
        lemma_split_nonempty(s@, sep);
    }
    parts
}

/// The comma-separated search keywords, lowercased.
pub open spec fn split_words(kw: Seq<char>) -> Seq<Seq<char>> {
    split_chars(kw, ',').map_values(|w: Seq<char>| lower_chars(w))
}

/// Split a search text into lowercased keywords.
pub fn split_keywords(keywords: &str) -> (r: Vec<String>)
    ensures
        views_of(r@) =~= split_words(keywords@),
{
    let raw = split_str(keywords, ',');
    let mut words: Vec<String> = Vec::new();
    let mut i: usize = 0;
    proof {
        assert(views_of(words@) =~= split_words(keywords@).take(0));
    }
    while i < raw.len()
        invariant
            0 <= i <= raw@.len(),
            views_of(raw@) == split_chars(keywords@, ','),
            split_words(keywords@).len() == raw@.len(),
            views_of(words@) =~= split_words(keywords@).take(i as int),
        decreases raw@.len() - i,
    {
        words.push(lower_str(raw[i].as_str()));
        proof {
            assert(views_of(words@) =~= views_of(words@.drop_last()).push(words@.last()@));
            assert(split_words(keywords@)[i as int] == crate::strutil::lower_chars(
                views_of(raw@)[i as int],
            ));
            assert(split_words(keywords@).take(i + 1) =~= split_words(keywords@).take(
                i as int,
            ).push(split_words(keywords@)[i as int]));
        }
        i += 1;
    }
    proof {
        assert(split_words(keywords@).take(split_words(keywords@).len() as int) =~= split_words(
            keywords@,
        ));
    }
    words
}

} // verus!

