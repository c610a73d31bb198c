use vstd::prelude::*;

use crate::key::KeyRecord;

verus! {

/// Whether `c` is white space, as the Unicode property White_Space has it.
pub open spec fn is_space(c: char) -> bool {
    let u = c as u32;
    ||| 0x09 <= u <= 0x0D
    ||| u == 0x20
    ||| u == 0x85
    ||| u == 0xA0
    ||| u == 0x1680
    ||| 0x2000 <= u <= 0x200A
    ||| u == 0x2028
    ||| u == 0x2029
    ||| u == 0x202F
    ||| u == 0x205F
    ||| u == 0x3000
}

/// The first position at or after `i` that holds no white space, or the length.
pub open spec fn skip_space(s: Seq<char>, i: nat) -> nat
    decreases s.len() - i,
{
    if i >= s.len() {
        s.len()
    } else if is_space(s[i as int]) {
        skip_space(s, i + 1)
    } else {
        i
    }
}

/// The first position at or after `i` that holds white space, or the length.
pub open spec fn skip_word(s: Seq<char>, i: nat) -> nat
    decreases s.len() - i,
{
    if i >= s.len() {
        s.len()
    } else if is_space(s[i as int]) {
        i
    } else {
        skip_word(s, i + 1)
    }
}

/// The first position at or after `i` that holds `c`, or the length.
pub open spec fn find_char(s: Seq<char>, c: char, i: nat) -> nat
    decreases s.len() - i,
{
    if i >= s.len() {
        s.len()
    } else if s[i as int] == c {
        i
    } else {
        find_char(s, c, i + 1)
    }
}

/// The end of `s` up to `j` once trailing white space is left out.
pub open spec fn trim_back(s: Seq<char>, j: nat) -> nat
    decreases j,
{
    if j == 0 || j > s.len() {
        j
    } else if is_space(s[j - 1]) {
        trim_back(s, (j - 1) as nat)
    } else {
        j
    }
}

/// `s` without leading and trailing white space.
pub open spec fn trimmed(s: Seq<char>) -> Seq<char> {
    let a = skip_space(s, 0);
    let b = trim_back(s, s.len());
    if a < b {
        s.subrange(a as int, b as int)
    } else {
        Seq::empty()
    }
}

/// The second of the white-space separated words of `s`, if it has two.
pub open spec fn second_word(s: Seq<char>) -> Option<Seq<char>> {
    let a = skip_space(s, 0);
    let b = skip_space(s, skip_word(s, a));
    if b >= s.len() {
        None
    } else {
        Some(s.subrange(b as int, skip_word(s, b) as int))
    }
}

/// The second of the pieces of `s` between occurrences of `sep`: what
/// follows the first `sep` up to the next one or the end, if `s` holds `sep`.
pub open spec fn second_field(s: Seq<char>, sep: char) -> Option<Seq<char>> {
    let f = find_char(s, sep, 0);
    if f >= s.len() {
        None
    } else {
        Some(s.subrange(f + 1 as int, find_char(s, sep, f + 1) as int))
    }
}

/// Whether `pat` occurs in `s` at position `i`.
pub open spec fn occurs_at(s: Seq<char>, pat: Seq<char>, i: int) -> bool {
    &&& 0 <= i
    &&& i + pat.len() <= s.len()
    &&& forall|k: int| 0 <= k < pat.len() ==> s[i + k] == #[trigger] pat[k]
}

/// Whether `pat` occurs anywhere in `s`.
pub open spec fn contains(s: Seq<char>, pat: Seq<char>) -> bool {
    exists|i: int| #[trigger] occurs_at(s, pat, i)
}

/// The key id that a line names when it describes a secret key, such as
/// `sec   rsa4096/ABCD1234EFGH5678 2023-01-01 [SC]`: the part after the
/// first `/` of its second word. A line where that part is empty names no
/// key id, since a key id is never empty.
pub open spec fn secret_key_id(line: Seq<char>) -> Option<Seq<char>> {
    if occurs_at(line, seq!['s', 'e', 'c'], 0) {
        match second_word(line) {
            Some(w) => match second_field(w, '/') {
                Some(id) => if id.len() > 0 {
                    Some(id)
                } else {
                    None
                },
                None => None,
            },
            None => None,
        }
    } else {
        None
    }
}

/// Whether a line describes a user id, such as
/// `uid           [ultimate] John Doe <john@example.com>`.
pub open spec fn is_user_id_line(line: Seq<char>) -> bool {
    contains(line, seq!['u', 'i', 'd']) && contains(line, seq!['['])
}

/// The user id that such a line gives: what follows its first `]`, up to a
/// second one, without surrounding white space.
pub open spec fn user_id_text(line: Seq<char>) -> Seq<char> {
    match second_field(line, ']') {
        Some(f) => trimmed(f),
        None => Seq::empty(),
    }
}

/// The key ids and user ids read so far, and the key id that still waits
/// for its user id.
pub ghost struct ListingProgress {
    pub pending: Option<Seq<char>>,
    pub keys: Seq<(Seq<char>, Seq<char>)>,
}

/// Reads one line: a secret key line makes its key id the pending one; a
/// user id line pairs the pending key id, if any, with its user id.
pub open spec fn read_line(p: ListingProgress, line: Seq<char>) -> ListingProgress {
    let pending = match secret_key_id(line) {
        Some(id) => Some(id),
        None => p.pending,
    };
    if is_user_id_line(line) && pending is Some {
        ListingProgress { pending: None, keys: p.keys.push((pending->0, user_id_text(line))) }
    } else {
        ListingProgress { pending, keys: p.keys }
    }
}

/// Reads the lines of `s` from position `i` on, a line ending before the
/// next line feed or at the end.
pub open spec fn read_lines_from(s: Seq<char>, i: nat, p: ListingProgress) -> Seq<
    (Seq<char>, Seq<char>),
>
    decreases s.len() + 1 - i,
    via read_lines_from_decreases
{
    if i >= s.len() {
        p.keys
    } else {
        let e = find_char(s, '\n', i);
        read_lines_from(s, e + 1, read_line(p, s.subrange(i as int, e as int)))
    }
}

#[via_fn]
proof fn read_lines_from_decreases(s: Seq<char>, i: nat, p: ListingProgress) {
    if i < s.len() {
        lemma_find_char_bounds(s, '\n', i);
    }
}

/// The keys, as pairs of key id and user id, that the listing of secret keys
/// `s` gives, in the order of the listing.
pub open spec fn key_listing(s: Seq<char>) -> Seq<(Seq<char>, Seq<char>)> {
    read_lines_from(s, 0, ListingProgress { pending: None, keys: Seq::empty() })
}

proof fn lemma_find_char_bounds(s: Seq<char>, c: char, i: nat)
    requires
        i <= s.len(),
    ensures
        i <= find_char(s, c, i) <= s.len(),
    decreases s.len() - i,
{
    if i < s.len() && s[i as int] != c {
        lemma_find_char_bounds(s, c, i + 1);
    }
}

fn is_space_char(c: char) -> (r: bool)
    ensures
        r == is_space(c),
{
    let u = c as u32;
    (0x09 <= u && u <= 0x0D) || u == 0x20 || u == 0x85 || u == 0xA0 || u == 0x1680 || (0x2000
        <= u && u <= 0x200A) || u == 0x2028 || u == 0x2029 || u == 0x202F || u == 0x205F || u
        == 0x3000
}

fn chars_of(text: &str) -> (r: Vec<char>)
    ensures
        r@ == text@,
{
    broadcast use vstd::string::group_string_axioms;

    let mut out: Vec<char> = Vec::new();
    for c in it: text.chars()
        invariant
            out@ == it.seq().subrange(0, it.index() as int),
    {
        out.push(c);
    }
    proof {
        assert(out@ =~= text@);
    }
    out
}

fn copy_range(s: &Vec<char>, from: usize, to: usize) -> (r: Vec<char>)
    requires
        from <= to <= s.len(),
    ensures
        r@ == s@.subrange(from as int, to as int),
{
    let mut out: Vec<char> = Vec::new();
    let mut k: usize = from;
    while k < to
        invariant
            from <= k <= to <= s.len(),
            out@ == s@.subrange(from as int, k as int),
        decreases to - k,
    {
        out.push(s[k]);
        k = k + 1;
        proof {
            assert(out@ =~= s@.subrange(from as int, k as int));
        }
    }
    out
}

fn skip_space_from(s: &Vec<char>, i: usize) -> (r: usize)
    requires
        i <= s.len(),
    ensures
        r == skip_space(s@, i as nat),
        i <= r <= s.len(),
{
    let mut j: usize = i;
    while j < s.len() && is_space_char(s[j])
        invariant
            i <= j <= s.len(),
            skip_space(s@, i as nat) == skip_space(s@, j as nat),
        decreases s.len() - j,
    {
        j = j + 1;
    }
    j
}

fn skip_word_from(s: &Vec<char>, i: usize) -> (r: usize)
    requires
        i <= s.len(),
    ensures
        r == skip_word(s@, i as nat),
        i <= r <= s.len(),
{
    let mut j: usize = i;
    while j < s.len() && !is_space_char(s[j])
        invariant
            i <= j <= s.len(),
            skip_word(s@, i as nat) == skip_word(s@, j as nat),
        decreases s.len() - j,
    {
        j = j + 1;
    }
    j
}

fn find_char_from(s: &Vec<char>, c: char, i: usize) -> (r: usize)
    requires
        i <= s.len(),
    ensures
        r == find_char(s@, c, i as nat),
        i <= r <= s.len(),
{
    let mut j: usize = i;
    while j < s.len() && s[j] != c
        invariant
            i <= j <= s.len(),
            find_char(s@, c, i as nat) == find_char(s@, c, j as nat),
        decreases s.len() - j,
    {
        j = j + 1;
    }
    j
}

fn trim_back_from(s: &Vec<char>, j: usize) -> (r: usize)
    requires
        j <= s.len(),
    ensures
        r == trim_back(s@, j as nat),
        r <= j,
{
    let mut k: usize = j;
    while k > 0 && is_space_char(s[k - 1])
        invariant
            k <= j <= s.len(),
            trim_back(s@, j as nat) == trim_back(s@, k as nat),
        decreases k,
    {
        k = k - 1;
    }
    k
}

/// Where `trimmed(s)` lies in `s`.
fn trimmed_range(s: &Vec<char>) -> (r: (usize, usize))
    ensures
        r.0 <= r.1 <= s.len(),
        s@.subrange(r.0 as int, r.1 as int) == trimmed(s@),
{
    let a = skip_space_from(s, 0);
    let b = trim_back_from(s, s.len());
    if a < b {
        (a, b)
    } else {
        proof {
            assert(s@.subrange(0, 0) =~= Seq::<char>::empty());
        }
        (0, 0)
    }
}

/// Where `second_word(s)` lies in `s`.
fn second_word_range(s: &Vec<char>) -> (r: Option<(usize, usize)>)
    ensures
        second_word(s@) is None <==> r is None,
        r matches Some((lo, hi)) ==> lo <= hi <= s.len() && second_word(s@) == Some(
            s@.subrange(lo as int, hi as int),
        ),
{
    let a = skip_space_from(s, 0);
    let w = skip_word_from(s, a);
    let b = skip_space_from(s, w);
    if b >= s.len() {
        None
    } else {
        Some((b, skip_word_from(s, b)))
    }
}

/// Where `second_field(s, sep)` lies in `s`.
fn second_field_range(s: &Vec<char>, sep: char) -> (r: Option<(usize, usize)>)
    ensures
        second_field(s@, sep) is None <==> r is None,
        r matches Some((lo, hi)) ==> lo <= hi <= s.len() && second_field(s@, sep) == Some(
            s@.subrange(lo as int, hi as int),
        ),
{
    let f = find_char_from(s, sep, 0);
    if f >= s.len() {
        None
    } else {
        Some((f + 1, find_char_from(s, sep, f + 1)))
    }
}

fn occurs_at_pos(s: &Vec<char>, pat: &Vec<char>, i: usize) -> (r: bool)
    requires
        i + pat.len() <= s.len(),
    ensures
        r == occurs_at(s@, pat@, i as int),
{
    let mut k: usize = 0;
    while k < pat.len()
        invariant
            i + pat.len() <= s.len(),
            k <= pat.len(),
            forall|m: int| 0 <= m < k ==> s@[i + m] == #[trigger] pat@[m],
        decreases pat.len() - k,
    {
        if s[i + k] != pat[k] {
            return false;
        }
        k = k + 1;
    }
    true
}

fn starts_with(s: &Vec<char>, pat: &Vec<char>) -> (r: bool)
    ensures
        r == occurs_at(s@, pat@, 0),
{
    if pat.len() > s.len() {
        false
    } else {
        occurs_at_pos(s, pat, 0)
    }
}

fn contains_seq(s: &Vec<char>, pat: &Vec<char>) -> (r: bool)
    ensures
        r == contains(s@, pat@),
{
    if pat.len() > s.len() {
        assert forall|i: int| !occurs_at(s@, pat@, i) by {}
        return false;
    }
    let last: usize = s.len() - pat.len();
    let mut i: usize = 0;
    while i <= last
        invariant
            last + pat.len() == s.len(),
            forall|j: int| 0 <= j < i ==> !#[trigger] occurs_at(s@, pat@, j),
        decreases last + 1 - i,
    {
        if occurs_at_pos(s, pat, i) {
            return true;
        }
        i = i + 1;
    }
    assert forall|j: int| !#[trigger] occurs_at(s@, pat@, j) by {
        if 0 <= j < i {
        }
    }
    false
}

/// Where `secret_key_id(line)` lies in `line`.
fn secret_key_id_range(line: &Vec<char>) -> (r: Option<(usize, usize)>)
    ensures
        secret_key_id(line@) is None <==> r is None,
        r matches Some((lo, hi)) ==> lo <= hi <= line.len() && secret_key_id(line@) == Some(
            line@.subrange(lo as int, hi as int),
        ),
{
    let sec: Vec<char> = vec!['s', 'e', 'c'];
    assert(sec@ =~= seq!['s', 'e', 'c']);
    if !starts_with(line, &sec) {
        return None;
    }
    match second_word_range(line) {
        None => None,
        Some((lo, hi)) => {
            let word = copy_range(line, lo, hi);
            match second_field_range(&word, '/') {
                None => None,
                Some((flo, fhi)) => {
                    if flo >= fhi {
                        return None;
                    }
                    proof {
                        assert(word@.subrange(flo as int, fhi as int) =~= line@.subrange(
                            lo + flo,
                            lo + fhi,
                        ));
                    }
                    Some((lo + flo, lo + fhi))
                },
            }
        },
    }
}

fn is_user_id_line_exec(line: &Vec<char>) -> (r: bool)
    ensures
        r == is_user_id_line(line@),
{
    let uid: Vec<char> = vec!['u', 'i', 'd'];
    let open: Vec<char> = vec!['['];
    assert(uid@ =~= seq!['u', 'i', 'd']);
    assert(open@ =~= seq!['[']);
    contains_seq(line, &uid) && contains_seq(line, &open)
}

/// Where `user_id_text(line)` lies in `line`.
fn user_id_range(line: &Vec<char>) -> (r: (usize, usize))
    ensures
        r.0 <= r.1 <= line.len(),
        line@.subrange(r.0 as int, r.1 as int) == user_id_text(line@),
{
    match second_field_range(line, ']') {
        None => {
            proof {
                assert(line@.subrange(0, 0) =~= Seq::<char>::empty());
            }
            (0, 0)
        },
        Some((lo, hi)) => {
            let field = copy_range(line, lo, hi);
            let (tlo, thi) = trimmed_range(&field);
            proof {
                assert(field@.subrange(tlo as int, thi as int) =~= line@.subrange(
                    lo + tlo,
                    lo + thi,
                ));
            }
            (lo + tlo, lo + thi)
        },
    }
}

/// The key id that waits for its user id, as characters.
pub open spec fn pending_view(p: Option<String>) -> Option<Seq<char>> {
    match p {
        Some(s) => Some(s@),
        None => None,
    }
}

/// Reads the keys out of a listing of secret keys, in the format that
/// `gpg --list-secret-keys --keyid-format long` prints: each key id comes
/// from a `sec` line and is paired with the user id of the next `uid` line.
pub fn parse_key_listing(text: &str) -> (r: Vec<KeyRecord>)
    ensures
        r@.map_values(|k: KeyRecord| (k.identifier@, k.label@)) == key_listing(text@),
        forall|k: int| 0 <= k < r@.len() ==> #[trigger] r@[k].identifier@.len() > 0,
{
    let chars = chars_of(text);
    let n = chars.len();
    let mut i: usize = 0;
    let mut pending: Option<String> = None;
    let mut out: Vec<KeyRecord> = Vec::new();
    assert(out@.map_values(|k: KeyRecord| (k.identifier@, k.label@)) =~= Seq::empty());
    while i < n
        invariant
            chars@ == text@,
            n == chars.len(),
            i <= n,
            forall|k: int| 0 <= k < out@.len() ==> #[trigger] out@[k].identifier@.len() > 0,
            pending matches Some(p) ==> p@.len() > 0,
            read_lines_from(
                text@,
                i as nat,
                ListingProgress {
                    pending: pending_view(pending),
                    keys: out@.map_values(|k: KeyRecord| (k.identifier@, k.label@)),
                },
            ) == key_listing(text@),
        decreases n + 1 - i,
    {
        let e = find_char_from(&chars, '\n', i);
        let line = copy_range(&chars, i, e);
        let ghost before = ListingProgress {
            pending: pending_view(pending),
            keys: out@.map_values(|k: KeyRecord| (k.identifier@, k.label@)),
        };
        if let Some((lo, hi)) = secret_key_id_range(&line) {
            proof {
                assert(line@.subrange(lo as int, hi as int) =~= text@.subrange(i + lo, i + hi));
            }
            pending = Some(String::from_str(text.substring_char(i + lo, i + hi)));
        }
        if is_user_id_line_exec(&line) {
            match pending {
                Some(id) => {
                    let (lo, hi) = user_id_range(&line);
                    proof {
                        assert(line@.subrange(lo as int, hi as int) =~= text@.subrange(
                            i + lo,
                            i + hi,
                        ));
                    }
                    let label = String::from_str(text.substring_char(i + lo, i + hi));
                    out.push(KeyRecord { identifier: id, label });
                    pending = None;
                },
                None => {},
            }
        }
        proof {
            let after = read_line(before, line@);
            assert(pending_view(pending) == after.pending);
            assert(out@.map_values(|k: KeyRecord| (k.identifier@, k.label@)) =~= after.keys);
            assert(line@ == text@.subrange(i as int, e as int));
            assert(read_lines_from(text@, i as nat, before) == read_lines_from(
                text@,
                (e + 1) as nat,
                after,
            ));
            assert(read_lines_from(text@, (n + 1) as nat, after) == read_lines_from(
                text@,
                n as nat,
                after,
            ));
        }
        if e < n {
            i = e + 1;
        } else {
            i = n;
        }
    }
    out
}

/// `text` without leading and trailing white space.
pub fn trim_text(text: &str) -> (r: String)
    ensures
        r@ == trimmed(text@),
{
    let chars = chars_of(text);
    let (lo, hi) = trimmed_range(&chars);
    String::from_str(text.substring_char(lo, hi))
}

} // verus!
