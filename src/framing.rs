use vstd::prelude::*;

verus! {

/// The bytes that end the head of a request: an empty line.
pub open spec fn is_separator_at(s: Seq<u8>, i: int) -> bool {
    0 <= i && i + 4 <= s.len() && s[i] == 13u8 && s[i + 1] == 10u8 && s[i + 2] == 13u8 && s[i + 3]
        == 10u8
}

/// The position of the first separator at or after `k`, if there is one.
pub open spec fn separator_from(s: Seq<u8>, k: int) -> Option<int>
    decreases s.len() - k,
{
    if k < 0 || k + 4 > s.len() {
        None
    } else if is_separator_at(s, k) {
        Some(k)
    } else {
        separator_from(s, k + 1)
    }
}

/// The position of the first blank-line separator in `s`, if there is one.
pub open spec fn first_separator(s: Seq<u8>) -> Option<int> {
    separator_from(s, 0)
}

proof fn lemma_separator_from(s: Seq<u8>, k: int)
    requires
        0 <= k,
    ensures
        match separator_from(s, k) {
            Some(i) => k <= i && is_separator_at(s, i) && forall|j: int|
                k <= j < i ==> !is_separator_at(s, j),
            None => forall|j: int| k <= j ==> !is_separator_at(s, j),
        },
    decreases s.len() - k,
{
    if k + 4 > s.len() {
    } else if is_separator_at(s, k) {
    } else {
        lemma_separator_from(s, k + 1);
    }
}

/// Finds the first `\r\n\r\n` in `bytes`.
pub fn find_separator(bytes: &[u8]) -> (r: Option<usize>)
    ensures
        match r {
            Some(i) => first_separator(bytes@) == Some(i as int) && i + 4 <= bytes@.len(),
            None => first_separator(bytes@) is None,
        },
{
    let n = bytes.len();
    if n < 4 {
        return None;
    }
    let mut i: usize = 0;
    while i <= n - 4
        invariant
            n == bytes@.len(),
            n >= 4,
            i <= n - 3,
            separator_from(bytes@, 0) == separator_from(bytes@, i as int),
        decreases n - i,
    {
        if bytes[i] == 13u8 && bytes[i + 1] == 10u8 && bytes[i + 2] == 13u8 && bytes[i + 3] == 10u8 {
            return Some(i);
        }
        i = i + 1;
    }
    None
}

/// The head of a request: the bytes before the first separator, or all of them.
pub open spec fn head_of(s: Seq<u8>) -> Seq<u8> {
    match first_separator(s) {
        Some(i) => s.subrange(0, i),
        None => s,
    }
}

/// The body of a request: the bytes after the first separator, or nothing.
pub open spec fn body_of(s: Seq<u8>) -> Seq<u8> {
    match first_separator(s) {
        Some(i) => s.subrange(i + 4, s.len() as int),
        None => Seq::empty(),
    }
}

fn copy_range(bytes: &[u8], from: usize, to: usize) -> (r: Vec<u8>)
    requires
        from <= to <= bytes@.len(),
    ensures
        r@ == bytes@.subrange(from as int, to as int),
{
    let mut r: Vec<u8> = Vec::with_capacity(to - from);
    let mut i: usize = from;
    while i < to
        invariant
            from <= i <= to <= bytes@.len(),
            r@ == bytes@.subrange(from as int, i as int),
        decreases to - i,
    {
        r.push(bytes[i]);
        i = i + 1;
        assert(r@ =~= bytes@.subrange(from as int, i as int));
    }
    r
}

/// Splits raw request bytes into head and body at the first `\r\n\r\n`; the
/// separator itself belongs to neither. Without a separator the whole input
/// is the head and the body is empty.
pub fn split_request(bytes: &[u8]) -> (r: (Vec<u8>, Vec<u8>))
    ensures
        r.0@ == head_of(bytes@),
        r.1@ == body_of(bytes@),
{
    match find_separator(bytes) {
        Some(i) => {
            let n = bytes.len();
            (copy_range(bytes, 0, i), copy_range(bytes, i + 4, n))
        },
        None => {
            (copy_range(bytes, 0, bytes.len()), Vec::new())
        },
    }
}

/// Whatever the input, the head is exactly what precedes the first separator
/// and the body exactly what follows it; without a separator the input is all
/// head. Head, separator and body put back together give the input again.
pub proof fn lemma_split_is_exact(s: Seq<u8>)
    ensures
        match first_separator(s) {
            Some(i) => {
                &&& head_of(s) == s.subrange(0, i)
                &&& body_of(s) == s.subrange(i + 4, s.len() as int)
                &&& forall|j: int| 0 <= j < i ==> !is_separator_at(s, j)
                &&& head_of(s) + seq![13u8, 10u8, 13u8, 10u8] + body_of(s) == s
            },
            None => head_of(s) == s && body_of(s).len() == 0 && forall|j: int|
                !is_separator_at(s, j),
        },
{
    lemma_separator_from(s, 0);
    match first_separator(s) {
        Some(i) => {
            assert(head_of(s) + seq![13u8, 10u8, 13u8, 10u8] + body_of(s) =~= s);
        },
        None => {
        },
    }
}

} // verus!
