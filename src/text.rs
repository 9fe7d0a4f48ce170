//! Text helpers over character sequences: substring search, truncation at
//! character boundaries, chunking and joining.
use vstd::prelude::*;

verus! {

/// `p` occurs in `s` starting at character position `i`.
pub open spec fn occurs_at(s: Seq<char>, p: Seq<char>, i: int) -> bool {
    0 <= i && i + p.len() <= s.len() && s.subrange(i, i + p.len()) == p
}

/// `p` is a (contiguous) substring of `s`.
pub open spec fn contains_seq(s: Seq<char>, p: Seq<char>) -> bool {
    exists|i: int| occurs_at(s, p, i)
}

/// The characters of `s`, in order.
pub fn chars_of(s: &str) -> (r: Vec<char>)
    ensures
        r@ == s@,
{
    let mut v: Vec<char> = Vec::new();
    for c in it: s.chars()
        invariant
            v@ == it.seq().take(it.index() as int),
    {
        v.push(c);
    }
    v
}


/// Whether `needle` matches `hay` at position `i`.
fn matches_at(hay: &Vec<char>, needle: &Vec<char>, i: usize) -> (r: bool)
    requires
        i + needle.len() <= hay.len(),
    ensures
        r == occurs_at(hay@, needle@, i as int),
{
    let mut j: usize = 0;
    while j < needle.len()
        invariant
            i + needle.len() <= hay.len(),
            j <= needle.len(),
            forall|k: int| 0 <= k < j ==> hay@[i + k] == needle@[k],
        decreases needle.len() - j,
    {
        if hay[i + j] != needle[j] {
            assert(hay@.subrange(i as int, i + needle.len())[j as int] != needle@[j as int]);
            return false;
        }
        j = j + 1;
    }
    assert(hay@.subrange(i as int, i + needle.len()) =~= needle@);
    true
}

/// Substring search over character vectors.
pub fn seq_contains(hay: &Vec<char>, needle: &Vec<char>) -> (r: bool)
    ensures
        r == contains_seq(hay@, needle@),
{
    if needle.len() > hay.len() {
        assert forall|i: int| !occurs_at(hay@, needle@, i) by {}
        return false;
    }
    if needle.len() == 0 {
        assert(hay@.subrange(0, 0) =~= needle@);
        assert(occurs_at(hay@, needle@, 0));
        return true;
    }
    let last: usize = hay.len() - needle.len();
    let mut i: usize = 0;
    while i <= last
        invariant
            last == hay.len() - needle.len(),
            0 < needle.len() <= hay.len(),
            forall|k: int| 0 <= k < i ==> !occurs_at(hay@, needle@, k),
        decreases last + 1 - i,
    {
        if matches_at(hay, needle, i) {
            return true;
        }
        i = i + 1;
    }
    assert forall|k: int| !occurs_at(hay@, needle@, k) by {
        if 0 <= k < i {
        }
    }
    false
}

/// Whether `s` contains `p` as a substring.
pub fn str_contains(s: &str, p: &str) -> (r: bool)
    ensures
        r == contains_seq(s@, p@),
{
    let hay = chars_of(s);
    let needle = chars_of(p);
    seq_contains(&hay, &needle)
}

/// The first `n` characters of `s`, or all of `s` when it is shorter.
pub open spec fn take_spec(s: Seq<char>, n: nat) -> Seq<char> {
    if s.len() <= n {
        s
    } else {
        s.subrange(0, n as int)
    }
}

/// Keeps at most `max_chars` whole characters of `s`.
pub fn take_chars(s: &str, max_chars: usize) -> (r: String)
    ensures
        r@ == take_spec(s@, max_chars as nat),
{
    if s.unicode_len() <= max_chars {
        String::from_str(s)
    } else {
        String::from_str(s.substring_char(0, max_chars))
    }
}

/// Cuts `s` to at most `max_chars` whole characters, never splitting one:
/// `s` itself when it fits, else exactly its first `max_chars` characters.
pub fn truncate_to_char_boundary(s: &str, max_chars: usize) -> (r: String)
    ensures
        r@ == take_spec(s@, max_chars as nat),
{
    take_chars(s, max_chars)
}


/// The character sequences of a list of strings.
pub open spec fn views(v: Seq<String>) -> Seq<Seq<char>> {
    v.map_values(|x: String| x@)
}

/// Left-to-right slices of `s` of `m` characters each; the last one holds
/// what remains.
pub open spec fn chunks_spec(s: Seq<char>, m: nat) -> Seq<Seq<char>>
    decreases s.len(),
{
    if m == 0 || s.len() == 0 {
        Seq::empty()
    } else if s.len() <= m {
        seq![s]
    } else {
        seq![s.subrange(0, m as int)] + chunks_spec(s.subrange(m as int, s.len() as int), m)
    }
}

/// Splits `text` into contiguous chunks of at most `max_len` characters.
pub fn chunk_text(text: &str, max_len: usize) -> (r: Vec<String>)
    requires
        max_len > 0,
    ensures
        views(r@) == chunks_spec(text@, max_len as nat),
{
    let n: usize = text.unicode_len();
    let mut chunks: Vec<String> = Vec::new();
    let mut start: usize = 0;
    assert(text@.subrange(0, n as int) =~= text@);
    assert(views(chunks@) + chunks_spec(text@, max_len as nat) =~= chunks_spec(text@, max_len as nat));
    while start < n
        invariant
            n == text@.len(),
            max_len > 0,
            start <= n,
            views(chunks@) + chunks_spec(text@.subrange(start as int, n as int), max_len as nat)
                == chunks_spec(text@, max_len as nat),
        decreases n - start,
    {
        let rest: Ghost<Seq<char>> = Ghost(text@.subrange(start as int, n as int));
        let end: usize = if n - start <= max_len {
            n
        } else {
            start + max_len
        };
        let piece = String::from_str(text.substring_char(start, end));
        proof {
            if end < n {
                assert(rest@.subrange(0, max_len as int) =~= piece@);
                assert(rest@.subrange(max_len as int, rest@.len() as int)
                    =~= text@.subrange(end as int, n as int));
            } else {
                assert(rest@ =~= piece@);
                assert(text@.subrange(end as int, n as int) =~= Seq::<char>::empty());
            }
        }
        let ghost before = chunks@;
        chunks.push(piece);
        assert(views(chunks@) =~= views(before).push(piece@));
        assert(views(chunks@) + chunks_spec(text@.subrange(end as int, n as int), max_len as nat)
            =~= views(before) + chunks_spec(rest@, max_len as nat));
        start = end;
    }
    assert(text@.subrange(start as int, n as int) =~= Seq::<char>::empty());
    assert(views(chunks@) =~= views(chunks@) + chunks_spec(Seq::<char>::empty(), max_len as nat));
    chunks
}

/// Chunks laid end to end give back the text; every chunk is non-empty, the
/// last holds at most `m` characters and every other exactly `m`.
pub proof fn lemma_chunks_cover(s: Seq<char>, m: nat)
    requires
        m > 0,
    ensures
        chunks_spec(s, m).flatten() == s,
        forall|i: int|
            0 <= i < chunks_spec(s, m).len() ==> 0 < #[trigger] chunks_spec(s, m)[i].len() <= m,
        forall|i: int|
            0 <= i < chunks_spec(s, m).len() - 1 ==> #[trigger] chunks_spec(s, m)[i].len() == m,
        chunks_spec(s, m).len() == (s.len() + m - 1) / (m as int),
    decreases s.len(),
{
    if s.len() == 0 {
        assert(s =~= Seq::<char>::empty());
        assert((s.len() + m - 1) / (m as int) == 0) by (nonlinear_arith)
            requires m > 0, s.len() == 0;
    } else if s.len() <= m {
        let cs = chunks_spec(s, m);
        assert(cs == seq![s]);
        assert(cs.drop_first() =~= Seq::<Seq<char>>::empty());
        assert(s + Seq::<char>::empty() =~= s);
        assert(cs.flatten() == cs.first() + cs.drop_first().flatten());
        assert((s.len() + m - 1) / (m as int) == 1) by (nonlinear_arith)
            requires m > 0, 0 < s.len() <= m;
    } else {
        let head = s.subrange(0, m as int);
        let tail = s.subrange(m as int, s.len() as int);
        lemma_chunks_cover(tail, m);
        let rest = chunks_spec(tail, m);
        let cs = chunks_spec(s, m);
        assert(cs == seq![head] + rest);
        assert(cs.drop_first() =~= rest);
        assert(cs.first() == head);
        assert(head + tail =~= s);
        assert(cs.flatten() == cs.first() + cs.drop_first().flatten());
        assert forall|i: int| 0 < i < cs.len() implies #[trigger] cs[i] == rest[i - 1] by {}
        assert((s.len() + m - 1) / (m as int) == (tail.len() + m - 1) / (m as int) + 1) by (nonlinear_arith)
            requires m > 0, tail.len() == s.len() - m, s.len() > m;
    }
}

/// `parts` joined with `sep` between neighbours.
pub open spec fn join_spec(parts: Seq<Seq<char>>, sep: Seq<char>) -> Seq<char>
    decreases parts.len(),
{
    if parts.len() == 0 {
        Seq::empty()
    } else if parts.len() == 1 {
        parts[0]
    } else {
        join_spec(parts.drop_last(), sep) + sep + parts.last()
    }
}

/// Joins `parts` with `sep` between neighbours.
pub fn join_strings(parts: &Vec<String>, sep: &str) -> (r: String)
    ensures
        r@ == join_spec(views(parts@), sep@),
{
    let mut out = String::new();
    let mut i: usize = 0;
    while i < parts.len()
        invariant
            i <= parts.len(),
            out@ == join_spec(views(parts@.subrange(0, i as int)), sep@),
        decreases parts.len() - i,
    {
        let ghost prev = out@;
        if i > 0 {
            out.append(sep);
        }
        out.append(parts[i].as_str());
        proof {
            let pre = views(parts@.subrange(0, i as int));
            let cur = views(parts@.subrange(0, i + 1));
            assert(cur.drop_last() =~= pre);
            assert(cur.last() == parts@[i as int]@);
            if i == 0 {
                assert(out@ =~= cur[0]);
            } else {
                assert(out@ =~= prev + sep@ + parts@[i as int]@);
            }
        }
        i = i + 1;
    }
    assert(parts@.subrange(0, i as int) =~= parts@);
    out
}


/// The Unicode `White_Space` property.
pub open spec fn white_space(c: char) -> bool {
    let u = c as u32;
    (0x9 <= u && u <= 0xD) || u == 0x20 || u == 0x85 || u == 0xA0 || u == 0x1680 || (0x2000 <= u
        && u <= 0x200A) || u == 0x2028 || u == 0x2029 || u == 0x202F || u == 0x205F || u == 0x3000
}

/// Whether `c` is a Unicode white-space character.
pub fn is_white_space(c: char) -> (r: bool)
    ensures
        r == white_space(c),
{
    let u = c as u32;
    (0x9 <= u && u <= 0xD) || u == 0x20 || u == 0x85 || u == 0xA0 || u == 0x1680 || (0x2000 <= u
        && u <= 0x200A) || u == 0x2028 || u == 0x2029 || u == 0x202F || u == 0x205F || u == 0x3000
}

/// `s` without its leading white space.
pub open spec fn trim_start_spec(s: Seq<char>) -> Seq<char>
    decreases s.len(),
{
    if s.len() > 0 && white_space(s[0]) {
        trim_start_spec(s.drop_first())
    } else {
        s
    }
}

/// `s` without its trailing white space.
pub open spec fn trim_end_spec(s: Seq<char>) -> Seq<char>
    decreases s.len(),
{
    if s.len() > 0 && white_space(s.last()) {
        trim_end_spec(s.drop_last())
    } else {
        s
    }
}

/// `s` without leading and trailing white space.
pub open spec fn trim_spec(s: Seq<char>) -> Seq<char> {
    trim_end_spec(trim_start_spec(s))
}

/// `s` with every white-space character removed.
pub open spec fn remove_white_space(s: Seq<char>) -> Seq<char>
    decreases s.len(),
{
    if s.len() == 0 {
        s
    } else if white_space(s.last()) {
        remove_white_space(s.drop_last())
    } else {
        remove_white_space(s.drop_last()).push(s.last())
    }
}

/// Removes leading and trailing white space.
pub fn trim(s: &str) -> (r: String)
    ensures
        r@ == trim_spec(s@),
{
    let cs = chars_of(s);
    let n: usize = cs.len();
    let mut a: usize = 0;
    assert(s@.subrange(0, n as int) =~= s@);
    while a < n && is_white_space(cs[a])
        invariant
            n == s@.len(),
            cs@ == s@,
            a <= n,
            trim_start_spec(s@) == trim_start_spec(s@.subrange(a as int, n as int)),
        decreases n - a,
    {
        proof {
            let t = s@.subrange(a as int, n as int);
            assert(t.drop_first() =~= s@.subrange(a + 1, n as int));
        }
        a = a + 1;
    }
    let ghost front = s@.subrange(a as int, n as int);
    assert(trim_start_spec(front) == front);
    let mut b: usize = n;
    while b > a && is_white_space(cs[b - 1])
        invariant
            n == s@.len(),
            cs@ == s@,
            a <= b <= n,
            front == s@.subrange(a as int, n as int),
            trim_end_spec(front) == trim_end_spec(s@.subrange(a as int, b as int)),
        decreases b - a,
    {
        proof {
            let t = s@.subrange(a as int, b as int);
            assert(t.drop_last() =~= s@.subrange(a as int, b - 1));
        }
        b = b - 1;
    }
    String::from_str(s.substring_char(a, b))
}

/// The Unicode lowercase form of a string, as `str::to_lowercase` gives it.
pub uninterp spec fn lower_of(s: Seq<char>) -> Seq<char>;

/// Relies on `str::to_lowercase`: its result depends on the characters of
/// the argument alone.
#[verifier::external_body]
pub(crate) fn lowercase(s: &str) -> (r: String)
    ensures
        r@ == lower_of(s@),
{
    s.to_lowercase()
}

/// Removes every white-space character.
pub fn strip_white_space(s: &str) -> (r: String)
    ensures
        r@ == remove_white_space(s@),
{
    let n: usize = s.unicode_len();
    let mut out = String::new();
    let mut i: usize = 0;
    while i < n
        invariant
            n == s@.len(),
            i <= n,
            out@ == remove_white_space(s@.subrange(0, i as int)),
        decreases n - i,
    {
        let c = s.get_char(i);
        let ghost prev = s@.subrange(0, i as int);
        let ghost cur = s@.subrange(0, i + 1);
        assert(cur.drop_last() =~= prev);
        if !is_white_space(c) {
            out.append(s.substring_char(i, i + 1));
            assert(s@.subrange(i as int, i + 1) =~= seq![c]);
            assert(out@ =~= remove_white_space(prev).push(c));
        }
        i = i + 1;
    }
    assert(s@.subrange(0, n as int) =~= s@);
    out
}

/// Whether two strings hold the same characters.
pub fn str_equal(a: &str, b: &str) -> (r: bool)
    ensures
        r == (a@ == b@),
{
    let x = chars_of(a);
    let y = chars_of(b);
    if x.len() != y.len() {
        return false;
    }
    let mut i: usize = 0;
    while i < x.len()
        invariant
            x@ == a@,
            y@ == b@,
            x.len() == y.len(),
            i <= x.len(),
            forall|k: int| 0 <= k < i ==> x@[k] == y@[k],
        decreases x.len() - i,
    {
        if x[i] != y[i] {
            assert(x@[i as int] != y@[i as int]);
            return false;
        }
        i = i + 1;
    }
    assert(x@ =~= y@);
    true
}

} // verus!
