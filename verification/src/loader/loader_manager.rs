//! The names that the columns of the wide table have for the sinks.

use vstd::prelude::*;
use crate::error::Fault;
use crate::error::PipelineError;
use crate::frame::column::ColumnView;
use crate::frame::names::after_rename;
use crate::frame::names::can_rename;
use crate::frame::names::rename_fault;
use crate::frame::table::Table;
use crate::transformer::normalize::outcome;

verus! {

/// A change of a column's name.
pub struct Renaming {
    pub old: &'static str,
    pub new: &'static str,
}

/// The changes that give the columns of the wide table their final names,
/// in the order in which they are made.
pub open spec fn final_names() -> Seq<Renaming> {
    seq![
        Renaming { old: "eur_to_usd", new: "fx_rate_eur_to_usd" },
        Renaming { old: "us_gdp_usd", new: "us_gdp_usd_billions" },
        Renaming { old: "us_total_debt_usd", new: "us_total_debt_usd_millions" },
        Renaming { old: "us_inflation_usd", new: "us_inflation_perc" },
        Renaming { old: "eu_inflation", new: "eu_inflation_perc" },
        Renaming { old: "eu_government_debt_converted", new: "eu_government_debt_usd_millions" },
        Renaming { old: "eu_gdp_converted", new: "eu_gdp_usd_millions" },
    ]
}

/// The columns after the first `n` changes, or a failure of the format
/// where one of them cannot be made.
pub open spec fn renamed_through(columns: Seq<ColumnView>, changes: Seq<Renaming>, n: nat)
    -> Result<Seq<ColumnView>, Fault>
    decreases n,
{
    if n == 0 {
        Ok(columns)
    } else {
        match renamed_through(columns, changes, (n - 1) as nat) {
            Err(fault) => Err(fault),
            Ok(so_far) => if can_rename(so_far, changes[n - 1].old@, changes[n - 1].new@) {
                Ok(after_rename(so_far, changes[n - 1].old@, changes[n - 1].new@))
            } else {
                Err(rename_fault(so_far, changes[n - 1].new@))
            },
        }
    }
}

/// A failure among the first `n` changes is the failure of any longer run.
pub proof fn renamed_keeps_failure(columns: Seq<ColumnView>, changes: Seq<Renaming>, n: nat, m: nat)
    requires
        n <= m,
        renamed_through(columns, changes, n) is Err,
    ensures
        renamed_through(columns, changes, m) == renamed_through(columns, changes, n),
    decreases m,
{
    if n < m {
        renamed_keeps_failure(columns, changes, n, (m - 1) as nat);
    }
}

/// The changes that give the columns of the wide table their final names.
pub fn final_renamings() -> (changes: Vec<Renaming>)
    ensures
        changes@ == final_names(),
{
    let mut changes: Vec<Renaming> = Vec::new();
    changes.push(Renaming { old: "eur_to_usd", new: "fx_rate_eur_to_usd" });
    changes.push(Renaming { old: "us_gdp_usd", new: "us_gdp_usd_billions" });
    changes.push(Renaming { old: "us_total_debt_usd", new: "us_total_debt_usd_millions" });
    changes.push(Renaming { old: "us_inflation_usd", new: "us_inflation_perc" });
    changes.push(Renaming { old: "eu_inflation", new: "eu_inflation_perc" });
    changes.push(
        Renaming { old: "eu_government_debt_converted", new: "eu_government_debt_usd_millions" },
    );
    changes.push(Renaming { old: "eu_gdp_converted", new: "eu_gdp_usd_millions" });
    assert(changes@ =~= final_names());
    changes
}

/// Gives the columns of the wide table the names under which the sinks
/// know them. It fails on the format where a column to be renamed is
/// missing or its new name is taken.
pub fn set_final_column_names(result: Table) -> (renamed: Result<Table, PipelineError>)
    ensures
        outcome(renamed) == renamed_through(result@, final_names(), 7),
{
    let changes = final_renamings();
    let ghost start = result@;
    let mut table = result;
    let mut i: usize = 0;
    while i < changes.len()
        invariant
            i <= changes.len(),
            changes@ == final_names(),
            changes.len() == 7,
            start == result@,
            renamed_through(start, final_names(), i as nat) == Ok::<Seq<ColumnView>, Fault>(
                table@,
            ),
        decreases changes.len() - i,
    {
        match table.rename(changes[i].old, changes[i].new) {
            Ok(next) => {
                table = next;
            },
            Err(error) => {
                proof {
                    assert(renamed_through(start, final_names(), (i + 1) as nat) == Err::<
                        Seq<ColumnView>,
                        Fault,
                    >(error@));
                    renamed_keeps_failure(start, final_names(), (i + 1) as nat, 7);
                }
                return Err(error);
            },
        }
        i = i + 1;
    }
    Ok(table)
}

} // verus!
