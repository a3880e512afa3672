//! What holds of identifiers and of how they are written.
use vstd::prelude::*;

use crate::id;
use crate::id::Uuid;

verus! {

/// `c` is a hexadecimal digit in lower case.
pub open spec fn is_hex(c: char) -> bool {
    '0' <= c <= '9' || 'a' <= c <= 'f'
}

/// The value of a hexadecimal digit.
pub open spec fn hex_value(c: char) -> int {
    if '0' <= c <= '9' {
        c as int - '0' as int
    } else {
        c as int - 'a' as int + 10
    }
}

proof fn lemma_digits(n: nat, width: nat)
    ensures
        id::hex_digits(n, width).len() == width,
        forall|i: int| 0 <= i < width ==> is_hex(#[trigger] id::hex_digits(n, width)[i]),
        width > 0 ==> hex_value(id::hex_digits(n, width)[width - 1]) == n % 16,
    decreases width,
{
    if width > 0 {
        lemma_digits(n / 16, (width - 1) as nat);
        let d = n % 16;
        let before = id::hex_digits(n / 16, (width - 1) as nat);
        let all = id::hex_digits(n, width);
        assert(is_hex(id::hex_digit(d)));
        assert forall|i: int| 0 <= i < width implies is_hex(#[trigger] all[i]) by {
            if i < width - 1 {
                assert(all[i] == before[i]);
            }
        }
    }
}

/// An identifier is written with thirty-two hexadecimal digits, in groups of eight,
/// four, four, four and twelve with a hyphen between each two; the last digit is
/// that of the lowest four bits.
pub proof fn an_identifier_is_written_in_five_groups(x: Uuid, i: int)
    requires
        0 <= i < 36,
    ensures
        id::uuid_text(x).len() == 36,
        id::uuid_text(x)[i] == '-' <==> i == 8 || i == 13 || i == 18 || i == 23,
        id::uuid_text(x)[i] != '-' ==> is_hex(id::uuid_text(x)[i]),
        hex_value(id::uuid_text(x)[35]) == x.bits % 16,
{
    reveal_strlit("-");
    let n = x.bits as nat;
    let a = id::hex_digits(n / 0x1_0000_0000_0000_0000_0000_0000nat, 8);
    let b = id::hex_digits(n / 0x1_0000_0000_0000_0000_0000nat, 4);
    let c = id::hex_digits(n / 0x1_0000_0000_0000_0000nat, 4);
    let d = id::hex_digits(n / 0x1_0000_0000_0000nat, 4);
    let e = id::hex_digits(n, 12);
    lemma_digits(n / 0x1_0000_0000_0000_0000_0000_0000nat, 8);
    lemma_digits(n / 0x1_0000_0000_0000_0000_0000nat, 4);
    lemma_digits(n / 0x1_0000_0000_0000_0000nat, 4);
    lemma_digits(n / 0x1_0000_0000_0000nat, 4);
    lemma_digits(n, 12);
    let t = id::uuid_text(x);
    assert(t == a + "-"@ + b + "-"@ + c + "-"@ + d + "-"@ + e);
    assert("-"@.len() == 1 && "-"@[0] == '-');
    if i < 8 {
        assert(t[i] == a[i]);
    } else if 8 < i < 13 {
        assert(t[i] == b[i - 9]);
    } else if 13 < i < 18 {
        assert(t[i] == c[i - 14]);
    } else if 18 < i < 23 {
        assert(t[i] == d[i - 19]);
    } else if 23 < i {
        assert(t[i] == e[i - 24]);
    }
    assert(t[35] == e[11]);
}

/// The identifier of a channel is made of its kind and its label, with a colon
/// between them.
pub proof fn a_channel_is_known_by_kind_and_label(kind: Seq<char>, label: Seq<char>)
    ensures
        id::channel_seed(kind, label) == kind + seq![':'] + label,
{
    reveal_strlit(":");
    assert(":"@ =~= seq![':']);
}

} // verus!
