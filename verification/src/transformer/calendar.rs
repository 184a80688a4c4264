//! Reading dates: texts and a format mask give the year and the month of
//! each text that is a date under the mask.

use vstd::prelude::*;
use polars::prelude::DateMethods;
use polars::prelude::PolarsError;
use polars::prelude::StringChunked;
use polars::prelude::StringMethods;
use crate::error::PipelineError;
use crate::text::characters;
use crate::transformer::quarter::is_month;

verus! {

/// The failure type of `polars`.
#[verifier::external_type_specification]
#[verifier::external_body]
pub struct ExPolarsError(PolarsError);

/// The most bytes that a mask may have: beyond that, the length that the
/// date reader computes for the dates of a mask might not fit its counter.
pub const MASK_LIMIT: usize = 13107;

/// Whether a mask can be handed to the date reader: it is not longer than
/// `MASK_LIMIT`, each `%` in it is followed by a character, and behind a `3`,
/// `6` or `9` that follows a `%` there is an `f`.
pub open spec fn mask_is_usable(mask: Seq<char>) -> bool {
    &&& vstd::utf8::encode_utf8(mask).len() <= MASK_LIMIT
    &&& forall|i: int|
        0 <= i < mask.len() && mask[i] == '%' ==> #[trigger] has_plain_successor(mask, i)
}

/// Whether a character follows the one at `i`, and, where it is one of `3`,
/// `6` and `9`, an `f` follows it.
pub open spec fn has_plain_successor(mask: Seq<char>, i: int) -> bool {
    &&& i + 1 < mask.len()
    &&& mask[i + 1] == '3' || mask[i + 1] == '6' || mask[i + 1] == '9' ==> i + 2 < mask.len()
        && mask[i + 2] == 'f'
}

/// Whether a mask can be handed to the date reader.
pub fn check_mask(mask: &str) -> (usable: bool)
    ensures
        usable == mask_is_usable(mask@),
{
    if mask.as_bytes().len() > MASK_LIMIT {
        return false;
    }
    let chars = characters(mask);
    let mut i: usize = 0;
    while i < chars.len()
        invariant
            i <= chars.len(),
            chars@ == mask@,
            vstd::utf8::encode_utf8(mask@).len() <= MASK_LIMIT,
            forall|k: int|
                0 <= k < i && mask@[k] == '%' ==> #[trigger] has_plain_successor(mask@, k),
        decreases chars.len() - i,
    {
        if chars[i] == '%' {
            if i + 1 >= chars.len() {
                assert(!has_plain_successor(mask@, i as int));
                return false;
            }
            let next = chars[i + 1];
            if next == '3' || next == '6' || next == '9' {
                if i + 2 >= chars.len() || chars[i + 2] != 'f' {
                    assert(!has_plain_successor(mask@, i as int));
                    return false;
                }
            }
        }
        i = i + 1;
    }
    true
}

/// Whether each date that was read has a month from 1 to 12.
pub open spec fn months_are_months(fields: Seq<Option<(i32, i8)>>) -> bool {
    forall|i: int|
        0 <= i < fields.len() ==> (#[trigger] fields[i] matches Some(date) ==> is_month(
            date.1 as int,
        ))
}

/// What `polars` reads from a column of texts under a format mask: nothing
/// where it refuses the mask, else for each text the year and the month of
/// the date that the text is under the mask, or nothing where it is none.
pub uninterp spec fn calendar_fields(texts: Seq<Option<Seq<char>>>, mask: Seq<char>) -> Option<
    Seq<Option<(i32, i8)>>,
>;

/// `StringMethods::as_date` of `polars`, with `DateMethods::year` and
/// `DateMethods::month` on what it returns. The contract names the result
/// `calendar_fields`, and claims of it, without proof, only that there is one
/// field for each text and none for an empty cell, that each month lies
/// between 1 and 12, and that the call fails where there is no result. The
/// masks that `mask_is_usable` leaves out are those on which the fast path of
/// `as_date` could fail to return.
#[verifier::external_body]
fn read_dates(texts: &Vec<Option<String>>, mask: &str) -> (read: Result<
    Vec<Option<(i32, i8)>>,
    PolarsError,
>)
    requires
        mask_is_usable(mask@),
    ensures
        read matches Ok(fields) ==> calendar_fields(texts.deep_view(), mask@) == Some(fields@)
            && fields.len() == texts.len() && months_are_months(fields@) && forall|i: int|
            0 <= i < texts.len() && texts[i] is None ==> fields[i] is None,
        read is Err ==> calendar_fields(texts.deep_view(), mask@) is None,
{
    let column: StringChunked = texts.iter().map(|text| text.as_deref()).collect();
    let dates = column.as_date(Some(mask), false)?;
    let years = dates.year();
    let months = dates.month();
    Ok(years.into_iter().zip(months.into_iter()).map(|(year, month)| year.zip(month)).collect())
}

/// Whether the dates of a column can be read under a mask.
pub open spec fn dates_can_be_read(texts: Seq<Option<Seq<char>>>, mask: Seq<char>) -> bool {
    mask_is_usable(mask) && calendar_fields(texts, mask) is Some
}

/// The year and the month of each text that is a date under the mask. It
/// fails where the mask is not usable or `polars` refuses it.
pub fn calendar_fields_of(texts: &Vec<Option<String>>, field: &str, mask: &str) -> (read: Result<
    Vec<Option<(i32, i8)>>,
    PipelineError,
>)
    ensures
        read is Ok <==> dates_can_be_read(texts.deep_view(), mask@),
        read matches Ok(fields) ==> calendar_fields(texts.deep_view(), mask@) == Some(fields@)
            && fields.len() == texts.len() && months_are_months(fields@),
        read matches Err(error) ==> error@ == (crate::error::Fault::Parse {
            field: field@,
            raw_value: mask@,
        }),
{
    if !check_mask(mask) {
        return Err(PipelineError::parse(field, mask));
    }
    match read_dates(texts, mask) {
        Ok(fields) => Ok(fields),
        Err(_) => Err(PipelineError::parse(field, mask)),
    }
}

} // verus!
