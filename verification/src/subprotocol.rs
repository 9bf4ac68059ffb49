//! The WebSocket subprotocol, as header fields name it.
use vstd::prelude::*;

use crate::text::same_bytes;
use crate::SUBPROTOCOL;

verus! {

/// A byte that a header field may hold as text: visible ASCII, a space or a tab.
pub open spec fn is_text(b: u8) -> bool {
    32 <= b < 127 || b == 9
}

/// A space or a tab.
pub open spec fn is_blank(b: u8) -> bool {
    b == 32 || b == 9
}

/// `s` without the blanks at its two ends.
pub open spec fn trimmed(s: Seq<u8>) -> Seq<u8>
    decreases s.len(),
{
    if s.len() > 0 && is_blank(s.first()) {
        trimmed(s.drop_first())
    } else if s.len() > 0 && is_blank(s.last()) {
        trimmed(s.drop_last())
    } else {
        s
    }
}

/// Bytes `a` to `b` of `value` are one of the pieces between its commas.
pub open spec fn is_piece(value: Seq<u8>, a: int, b: int) -> bool {
    &&& 0 <= a <= b <= value.len()
    &&& a == 0 || value[a - 1] == 44
    &&& b == value.len() || value[b] == 44
    &&& forall|k: int| a <= k < b ==> value[k] != 44
}

/// The field is text, and the subprotocol is one of the names that it lists
/// between commas.
pub open spec fn names(value: Seq<u8>) -> bool {
    &&& forall|k: int| 0 <= k < value.len() ==> is_text(#[trigger] value[k])
    &&& exists|a: int, b: int| #[trigger]
        is_piece(value, a, b) && trimmed(value.subrange(a, b)) == vstd::utf8::encode_utf8(
            SUBPROTOCOL@,
        )
}

fn blank(b: u8) -> (r: bool)
    ensures
        r == is_blank(b),
{
    b == 32 || b == 9
}

/// Whether bytes `from` to `to` of `value`, without the blanks at the ends, are
/// `word`.
fn piece_is(value: &[u8], from: usize, to: usize, word: &[u8]) -> (r: bool)
    requires
        from <= to <= value@.len(),
    ensures
        r == (trimmed(value@.subrange(from as int, to as int)) == word@),
{
    let mut i: usize = from;
    let mut j: usize = to;
    let ghost whole = trimmed(value@.subrange(from as int, to as int));
    while i < j && blank(value[i])
        invariant
            from <= i <= j == to <= value@.len(),
            whole == trimmed(value@.subrange(i as int, j as int)),
        decreases j - i,
    {
        proof {
            assert(value@.subrange(i as int, j as int).drop_first() =~= value@.subrange(
                i + 1,
                j as int,
            ));
        }
        i += 1;
    }
    while i < j && blank(value[j - 1])
        invariant
            i <= j <= value@.len(),
            whole == trimmed(value@.subrange(i as int, j as int)),
            i < j ==> !is_blank(value@[i as int]),
        decreases j - i,
    {
        proof {
            assert(value@.subrange(i as int, j as int).drop_last() =~= value@.subrange(
                i as int,
                j - 1,
            ));
        }
        j -= 1;
    }
    assert(whole == value@.subrange(i as int, j as int));
    same_bytes(vstd::slice::slice_subrange(value, i, j), word)
}

/// Whether a header field names the subprotocol.
pub fn names_subprotocol(value: &[u8]) -> (r: bool)
    ensures
        r == names(value@),
{
    let word = SUBPROTOCOL.as_bytes();
    let mut start: usize = 0;
    let mut i: usize = 0;
    let mut found = false;
    let ghost mut at: (int, int) = (0, 0);
    while i < value.len()
        invariant
            start <= i <= value@.len(),
            word@ == vstd::utf8::encode_utf8(SUBPROTOCOL@),
            start == 0 || value@[start - 1] == 44,
            forall|k: int| 0 <= k < i ==> is_text(#[trigger] value@[k]),
            forall|k: int| start <= k < i ==> value@[k] != 44,
            found ==> is_piece(value@, at.0, at.1) && trimmed(value@.subrange(at.0, at.1))
                == vstd::utf8::encode_utf8(SUBPROTOCOL@),
            !found ==> forall|a: int, b: int| #[trigger]
                is_piece(value@, a, b) && b < start ==> trimmed(value@.subrange(a, b))
                    != vstd::utf8::encode_utf8(SUBPROTOCOL@),
        decreases value@.len() - i,
    {
        let b = value[i];
        if !((32 <= b && b < 127) || b == 9) {
            assert(!is_text(value@[i as int]));
            return false;
        }
        if b == 44 {
            let hit = piece_is(value, start, i, word);
            proof {
                assert(is_piece(value@, start as int, i as int));
                if hit && !found {
                    at = (start as int, i as int);
                }
                assert forall|a: int, e: int| #[trigger]
                    is_piece(value@, a, e) && start <= e < i + 1 implies a == start && e == i by {
                    lemma_one_piece(value@, a, e, start as int, i as int);
                }
            }
            found = found || hit;
            start = i + 1;
        }
        i += 1;
    }
    let hit = piece_is(value, start, i, word);
    proof {
        assert(is_piece(value@, start as int, i as int));
        if hit && !found {
            at = (start as int, i as int);
        }
        assert forall|a: int, e: int| #[trigger]
            is_piece(value@, a, e) && start <= e implies a == start && e == i by {
            lemma_one_piece(value@, a, e, start as int, i as int);
        }
        if found || hit {
            assert(is_piece(value@, at.0, at.1));
        }
    }
    found || hit
}

/// A piece that ends inside another, or where it ends, is that piece.
proof fn lemma_one_piece(value: Seq<u8>, a: int, e: int, start: int, end: int)
    requires
        is_piece(value, a, e),
        is_piece(value, start, end),
        start <= e <= end,
    ensures
        a == start,
        e == end,
{
    if e < end {
        assert(value[e] != 44);
    }
    if a < start {
        assert(value[start - 1] != 44);
    }
    if a > start {
        assert(value[a - 1] != 44);
    }
}

/// Whether one of the fields of a request names the subprotocol.
pub fn check_subprotocol(fields: &[Vec<u8>]) -> (r: bool)
    ensures
        r == exists|i: int| 0 <= i < fields@.len() && names(#[trigger] fields@[i]@),
{
    let mut i: usize = 0;
    while i < fields.len()
        invariant
            i <= fields@.len(),
            forall|j: int| 0 <= j < i ==> !names(#[trigger] fields@[j]@),
        decreases fields@.len() - i,
    {
        if names_subprotocol(fields[i].as_slice()) {
            assert(names(fields@[i as int]@));
            return true;
        }
        i += 1;
    }
    false
}

/// The name of the subprotocol stands at `i` in `value`, between the ends `a` and
/// `b` of a piece, each an end of the field or next to a comma, with nothing but
/// blanks on either side.
pub open spec fn named_at(value: Seq<u8>, a: int, i: int, b: int) -> bool {
    &&& 0 <= a <= i
    &&& i + 8 <= b <= value.len()
    &&& a == 0 || value[a - 1] == 44
    &&& b == value.len() || value[b] == 44
    &&& value.subrange(i, i + 8) == seq![114u8, 100, 111, 119, 115, 46, 118, 49]
    &&& forall|k: int| a <= k < i || i + 8 <= k < b ==> #[trigger] value[k] == 32 || value[k] == 9
}

/// A header field names the subprotocol exactly where all of it is text and
/// the name stands in it, alone but for blanks between two commas or ends.
pub proof fn law_named_between_commas(value: Seq<u8>)
    ensures
        names(value) <==> {
            &&& forall|k: int|
                0 <= k < value.len() ==> 32 <= #[trigger] value[k] <= 126 || value[k] == 9
            &&& exists|a: int, i: int, b: int| named_at(value, a, i, b)
        },
{
    let word = vstd::utf8::encode_utf8(SUBPROTOCOL@);
    lemma_name();
    if names(value) {
        assert forall|k: int| 0 <= k < value.len() implies 32 <= #[trigger] value[k] <= 126
            || value[k] == 9 by {
            assert(is_text(value[k]));
        }
        let (a, b) = choose|a: int, b: int| #[trigger]
            is_piece(value, a, b) && trimmed(value.subrange(a, b)) == word;
        let s = value.subrange(a, b);
        let i = lemma_trimmed_lies_in(s);
        assert(value.subrange(a + i, a + i + 8) =~= s.subrange(i, i + 8));
        assert forall|k: int| a <= k < a + i || a + i + 8 <= k < b implies #[trigger] value[k]
            == 32 || value[k] == 9 by {
            assert(is_blank(s[k - a]));
        }
        assert(named_at(value, a, a + i, b));
    }
    if (forall|k: int| 0 <= k < value.len() ==> 32 <= #[trigger] value[k] <= 126 || value[k] == 9)
        && exists|a: int, i: int, b: int| named_at(value, a, i, b) {
        let (a, i, b) = choose|a: int, i: int, b: int| named_at(value, a, i, b);
        let s = value.subrange(a, b);
        assert(s.subrange(i - a, i - a + 8) =~= word);
        assert forall|k: int| 0 <= k < i - a || i - a + 8 <= k < s.len() implies is_blank(
            #[trigger] s[k],
        ) by {
            assert(s[k] == value[a + k]);
        }
        lemma_trimmed_of_blanks_around(s, i - a, word);
        assert forall|k: int| a <= k < b implies value[k] != 44 by {
            if i <= k < i + 8 {
                assert(value[k] == value.subrange(i, i + 8)[k - i]);
            }
        }
        assert(is_piece(value, a, b));
        assert forall|k: int| 0 <= k < value.len() implies is_text(#[trigger] value[k]) by {}
    }
}

proof fn lemma_name()
    ensures
        vstd::utf8::encode_utf8(SUBPROTOCOL@) == seq![114u8, 100, 111, 119, 115, 46, 118, 49],
{
    reveal_strlit("rdows.v1");
    vstd::utf8::is_ascii_chars_encode_utf8(SUBPROTOCOL@);
    assert(vstd::utf8::encode_utf8(SUBPROTOCOL@) =~= seq![
        114u8,
        100,
        111,
        119,
        115,
        46,
        118,
        49,
    ]);
}

proof fn lemma_trimmed_lies_in(s: Seq<u8>) -> (i: int)
    ensures
        0 <= i,
        i + trimmed(s).len() <= s.len(),
        trimmed(s) == s.subrange(i, i + trimmed(s).len()),
        forall|k: int|
            0 <= k < i || i + trimmed(s).len() <= k < s.len() ==> is_blank(#[trigger] s[k]),
    decreases s.len(),
{
    if s.len() > 0 && is_blank(s.first()) {
        let rest = s.drop_first();
        let j = lemma_trimmed_lies_in(rest);
        let n = trimmed(s).len();
        assert(s.subrange(j + 1, j + 1 + n) =~= rest.subrange(j, j + n));
        assert forall|k: int| 0 <= k < j + 1 || j + 1 + n <= k < s.len() implies is_blank(
            #[trigger] s[k],
        ) by {
            if k > 0 {
                assert(s[k] == rest[k - 1]);
            }
        }
        j + 1
    } else if s.len() > 0 && is_blank(s.last()) {
        let rest = s.drop_last();
        let j = lemma_trimmed_lies_in(rest);
        let n = trimmed(s).len();
        assert(s.subrange(j, j + n) =~= rest.subrange(j, j + n));
        assert forall|k: int| 0 <= k < j || j + n <= k < s.len() implies is_blank(
            #[trigger] s[k],
        ) by {
            if k < rest.len() {
                assert(s[k] == rest[k]);
            }
        }
        j
    } else {
        assert(s.subrange(0, s.len() as int) =~= s);
        0
    }
}

proof fn lemma_trimmed_of_blanks_around(s: Seq<u8>, i: int, word: Seq<u8>)
    requires
        0 <= i,
        word.len() > 0,
        !is_blank(word.first()),
        !is_blank(word.last()),
        i + word.len() <= s.len(),
        s.subrange(i, i + word.len()) == word,
        forall|k: int|
            0 <= k < i || i + word.len() <= k < s.len() ==> is_blank(#[trigger] s[k]),
    ensures
        trimmed(s) == word,
    decreases s.len(),
{
    assert(s[i] == word.first());
    assert(s[i + word.len() - 1] == word.last());
    if i > 0 {
        assert(is_blank(s[0]));
        let rest = s.drop_first();
        assert(rest.subrange(i - 1, i - 1 + word.len()) =~= word);
        assert forall|k: int| 0 <= k < i - 1 || i - 1 + word.len() <= k < rest.len() implies
            is_blank(#[trigger] rest[k]) by {
            assert(rest[k] == s[k + 1]);
        }
        lemma_trimmed_of_blanks_around(rest, i - 1, word);
    } else if word.len() < s.len() {
        assert(is_blank(s[s.len() - 1]));
        let rest = s.drop_last();
        assert(rest.subrange(0, word.len() as int) =~= word);
        lemma_trimmed_of_blanks_around(rest, 0, word);
    } else {
        assert(s.subrange(0, s.len() as int) =~= s);
    }
}

/// `names_subprotocol` accepts a field exactly where all of it is text and the name
/// stands in it, alone but for blanks between two commas or ends.
pub proof fn law_names_subprotocol(value: &[u8], r: bool)
    requires
        call_ensures(names_subprotocol, (value,), r),
    ensures
        r <==> {
            &&& forall|k: int|
                0 <= k < value@.len() ==> 32 <= #[trigger] value@[k] <= 126 || value@[k] == 9
            &&& exists|a: int, i: int, b: int| named_at(value@, a, i, b)
        },
{
    law_named_between_commas(value@);
}

} // verus!
