//! Small services of the game that stand apart from the simulation.

use crate::text::{decimal, pad_zero, push_decimal, push_padded, same_text};
use vstd::prelude::*;
use vstd::string::StringExecFns;
use vstd::string::StrSliceExecFns;

verus! {

/// The text in which the field `field` shows `value`.
///
/// - `time` is in hundredths: at least four digits, a point, two digits;
/// - `alpha_count` and `chain_length` have at least four digits;
/// - `score` has at least six digits, with a comma after the third
///   character;
/// - any other field shows the plain number.
pub open spec fn field_text(field: Seq<char>, value: u32) -> Seq<char> {
    if field == "time"@ {
        pad_zero(decimal((value / 100) as nat), 4) + seq!['.'] + pad_zero(
            decimal((value % 100) as nat),
            2,
        )
    } else if field == "alpha_count"@ || field == "chain_length"@ {
        pad_zero(decimal(value as nat), 4)
    } else if field == "score"@ {
        let digits = pad_zero(decimal(value as nat), 6);
        digits.subrange(0, 3) + seq![','] + digits.subrange(3, digits.len() as int)
    } else {
        decimal(value as nat)
    }
}

/// Formats the value of a scoreboard field.
pub fn format_field_text(field: &str, value: u32) -> (text: String)
    ensures
        text@ == field_text(field@, value),
{
    let mut text = String::new();
    if same_text(field, "time") {
        push_padded(&mut text, (value / 100) as u64, 4);
        proof {
            reveal_strlit(".");
        }
        text.append(".");
        push_padded(&mut text, (value % 100) as u64, 2);
        assert(text@ =~= field_text(field@, value));
    } else if same_text(field, "alpha_count") {
        push_padded(&mut text, value as u64, 4);
        assert(text@ =~= field_text(field@, value));
    } else if same_text(field, "score") {
        let mut digits = String::new();
        push_padded(&mut digits, value as u64, 6);
        assert(digits@ =~= pad_zero(decimal(value as nat), 6));
        let len = digits.as_str().unicode_len();
        let first = digits.as_str().substring_char(0, 3);
        let second = digits.as_str().substring_char(3, len);
        text.append(first);
        proof {
            reveal_strlit(",");
            reveal_strlit("score");
            reveal_strlit("chain_length");
        }
        text.append(",");
        text.append(second);
        assert("score"@.len() == 5 && "chain_length"@.len() == 12);
        assert(text@ =~= field_text(field@, value));
    } else if same_text(field, "chain_length") {
        push_padded(&mut text, value as u64, 4);
        assert(text@ =~= field_text(field@, value));
    } else {
        push_decimal(&mut text, value as u64);
        assert(text@ =~= field_text(field@, value));
    }
    text
}

} // verus!
