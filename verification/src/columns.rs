//! The names of the columns of the pipeline, and that no two of them are
//! the same.

use vstd::prelude::*;
use crate::transformer::convert::CONVERTED;
use crate::transformer::normalize::QUARTER;

verus! {

/// The names that columns have between the normalizer and the sinks: the
/// quarter, the metrics as they are joined, and the final names.
pub open spec fn column_names() -> Seq<Seq<char>> {
    seq![
        "quarter"@,
        "eur_to_usd"@,
        "sp500_usd"@,
        "us_gdp_usd"@,
        "us_total_debt_usd"@,
        "us_inflation_usd"@,
        "eu_inflation"@,
        "eu_government_debt"@,
        "eu_gdp"@,
        "eu_government_debt_converted"@,
        "eu_gdp_converted"@,
        "fx_rate_eur_to_usd"@,
        "us_gdp_usd_billions"@,
        "us_total_debt_usd_millions"@,
        "us_inflation_perc"@,
        "eu_inflation_perc"@,
        "eu_government_debt_usd_millions"@,
        "eu_gdp_usd_millions"@,
    ]
}

/// The columns of the wide table as the sinks get it, in order.
pub open spec fn final_columns() -> Seq<Seq<char>> {
    seq![
        "quarter"@,
        "eu_gdp_usd_millions"@,
        "fx_rate_eur_to_usd"@,
        "sp500_usd"@,
        "us_gdp_usd_billions"@,
        "us_total_debt_usd_millions"@,
        "us_inflation_perc"@,
        "eu_inflation_perc"@,
        "eu_government_debt_usd_millions"@,
    ]
}

/// What tells two of the names apart: the length, the first character and
/// the fourth.
spec fn mark(name: Seq<char>) -> (nat, char, char) {
    (name.len(), name[0], name[3])
}

/// No two of the names are the same.
pub proof fn column_names_differ()
    ensures
        forall|a: int, b: int|
            0 <= a < b < column_names().len() ==> column_names()[a] != column_names()[b],
        QUARTER@ == column_names()[0],
        "eu_government_debt"@ + CONVERTED@ == column_names()[9],
        "eu_gdp"@ + CONVERTED@ == column_names()[10],
{
    reveal_strlit("quarter");
    reveal_strlit("eur_to_usd");
    reveal_strlit("sp500_usd");
    reveal_strlit("us_gdp_usd");
    reveal_strlit("us_total_debt_usd");
    reveal_strlit("us_inflation_usd");
    reveal_strlit("eu_inflation");
    reveal_strlit("eu_government_debt");
    reveal_strlit("eu_gdp");
    reveal_strlit("eu_government_debt_converted");
    reveal_strlit("eu_gdp_converted");
    reveal_strlit("fx_rate_eur_to_usd");
    reveal_strlit("us_gdp_usd_billions");
    reveal_strlit("us_total_debt_usd_millions");
    reveal_strlit("us_inflation_perc");
    reveal_strlit("eu_inflation_perc");
    reveal_strlit("eu_government_debt_usd_millions");
    reveal_strlit("eu_gdp_usd_millions");
    reveal_strlit("_converted");
    let names = column_names();
    assert(mark(names[0]) == (7nat, 'q', 'r'));
    assert(mark(names[1]) == (10nat, 'e', '_'));
    assert(mark(names[2]) == (9nat, 's', '0'));
    assert(mark(names[3]) == (10nat, 'u', 'g'));
    assert(mark(names[4]) == (17nat, 'u', 't'));
    assert(mark(names[5]) == (16nat, 'u', 'i'));
    assert(mark(names[6]) == (12nat, 'e', 'i'));
    assert(mark(names[7]) == (18nat, 'e', 'g'));
    assert(names[8].len() == 6);
    assert(mark(names[9]) == (28nat, 'e', 'g'));
    assert(mark(names[10]) == (16nat, 'e', 'g'));
    assert(mark(names[11]) == (18nat, 'f', 'r'));
    assert(mark(names[12]) == (19nat, 'u', 'g'));
    assert(mark(names[13]) == (26nat, 'u', 't'));
    assert(mark(names[14]) == (17nat, 'u', 'i'));
    assert(mark(names[15]) == (17nat, 'e', 'i'));
    assert(mark(names[16]) == (31nat, 'e', 'g'));
    assert(mark(names[17]) == (19nat, 'e', 'g'));
    assert(QUARTER@ == "quarter"@);
    assert(CONVERTED@ == "_converted"@);
    assert("eu_government_debt"@ + "_converted"@ =~= "eu_government_debt_converted"@);
    assert("eu_gdp"@ + "_converted"@ =~= "eu_gdp_converted"@);
}

} // verus!
