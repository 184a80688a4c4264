//! The wide table of the eight datasets of the registry: it is made
//! without failure, and it has the columns that the sinks expect.

use vstd::prelude::*;
use crate::columns::column_names;
use crate::columns::column_names_differ;
use crate::columns::final_columns;
use crate::datasets_config::datasets_config::registry;
use crate::datasets_config::datasets_config::registry_is_consistent;
use crate::error::Fault;
use crate::frame::column::ColumnView;
use crate::frame::names::all_distinct;
use crate::frame::table::names_of;
use crate::loader::loader_manager::final_names;
use crate::loader::loader_manager::renamed_through;
use crate::model::data_model::DatasetView;
use crate::pipeline::transformed;
use crate::shape::is_series;
use crate::shape::is_wide;
use crate::shape::joining_series_gives_a_wide_table;
use crate::shape::rename_keeps_the_table_wide;
use crate::shape::series_has_its_columns;
use crate::shape::series_stays_without_nulls;
use crate::transformer::convert::conversion;
use crate::transformer::convert::converted_columns_agree;
use crate::transformer::convert::CONVERTED;
use crate::transformer::convert::RATE;
use crate::transformer::normalize::all_converted;
use crate::transformer::normalize::all_joined;
use crate::transformer::normalize::canonical_names;
use crate::transformer::normalize::cleaned;
use crate::transformer::normalize::converted;
use crate::transformer::normalize::each_renamed;
use crate::transformer::normalize::first_named;
use crate::transformer::normalize::gathered;
use crate::transformer::normalize::is_convertible;
use crate::transformer::normalize::kept;
use crate::transformer::normalize::number_cells;
use crate::transformer::normalize::renamed;
use crate::transformer::normalize::with_table;
use crate::transformer::normalize::FX_RATES;
use crate::transformer::normalize::NO_COMMON_QUARTER;
use crate::transformer::normalize::QUARTER;
use crate::frame::join::text_cells;

verus! {

/// Where none of the first `n` outcomes is a failure, they are gathered as
/// they stand.
pub proof fn gathered_without_failure(outcomes: Seq<Result<DatasetView, Fault>>, n: nat)
    requires
        n <= outcomes.len(),
        forall|i: int| 0 <= i < n ==> (#[trigger] outcomes[i]) is Ok,
    ensures
        gathered(outcomes, n) == Ok::<Seq<DatasetView>, Fault>(
            Seq::new(n, |i: int| outcomes[i]->Ok_0),
        ),
    decreases n,
{
    if n > 0 {
        gathered_without_failure(outcomes, (n - 1) as nat);
        assert(outcomes[n - 1] is Ok);
        assert(Seq::new((n - 1) as nat, |i: int| outcomes[i]->Ok_0).push(outcomes[n - 1]->Ok_0)
            =~= Seq::new(n, |i: int| outcomes[i]->Ok_0));
    } else {
        assert(Seq::new(0, |i: int| outcomes[i]->Ok_0) =~= Seq::<DatasetView>::empty());
    }
}

/// The metric of each dataset after the renaming, in the order of the
/// registry.
pub open spec fn renamed_metrics(metrics: Seq<Seq<char>>) -> Seq<Seq<char>> {
    seq![
        "eur_to_usd"@,
        metrics[1],
        metrics[2],
        metrics[3],
        metrics[4],
        "eu_government_debt"@,
        "eu_gdp"@,
        "eu_inflation"@,
    ]
}

/// Whether the datasets are those of the registry, in its order.
pub open spec fn are_of_the_registry(datasets: Seq<DatasetView>) -> bool {
    &&& datasets.len() == 8
    &&& forall|i: int| 0 <= i < 8 ==> (#[trigger] datasets[i]).name == registry()[i].name@
}

/// The datasets of the registry, each a series, are renamed without
/// failure, and each is then a series under its canonical metric.
pub proof fn registry_is_renamed(datasets: Seq<DatasetView>, metrics: Seq<Seq<char>>)
    requires
        are_of_the_registry(datasets),
        metrics.len() == 8,
        forall|i: int| 0 <= i < 8 ==> is_series((#[trigger] datasets[i]).table, metrics[i]),
    ensures
        gathered(each_renamed(datasets), 8) is Ok,
        are_of_the_registry(gathered(each_renamed(datasets), 8)->Ok_0),
        forall|i: int|
            0 <= i < 8 ==> is_series(
                (#[trigger] gathered(each_renamed(datasets), 8)->Ok_0[i]).table,
                renamed_metrics(metrics)[i],
            ),
{
    registry_is_consistent();
    column_names_differ();
    let names = column_names();
    let outcomes = each_renamed(datasets);
    let after = renamed_metrics(metrics);
    assert(registry()[0].name@ == "fx_rates"@);
    assert(registry()[5].name@ == "eu_government_debt"@);
    assert(registry()[6].name@ == "eu_gdp"@);
    assert(registry()[7].name@ == "eu_inflation"@);
    assert forall|i: int| 0 <= i < 8 implies (#[trigger] outcomes[i]) is Ok && outcomes[i]->Ok_0.name
        == datasets[i].name && is_series(outcomes[i]->Ok_0.table, after[i]) by {
        let dataset = datasets[i];
        assert(dataset.name == registry()[i].name@);
        assert(is_series(dataset.table, metrics[i]));
        if i == 0 {
            assert(canonical_names(dataset.name) == Some(seq![QUARTER@, "eur_to_usd"@]));
            assert(names[1] == "eur_to_usd"@);
        } else if i == 5 {
            assert(dataset.name != registry()[0].name@);
            assert(canonical_names(dataset.name) == Some(seq![QUARTER@, "eu_government_debt"@]));
            assert(names[7] == "eu_government_debt"@);
        } else if i == 6 {
            assert(dataset.name != registry()[0].name@);
            assert(dataset.name != registry()[5].name@);
            assert(canonical_names(dataset.name) == Some(seq![QUARTER@, "eu_gdp"@]));
            assert(names[8] == "eu_gdp"@);
        } else if i == 7 {
            assert(dataset.name != registry()[0].name@);
            assert(dataset.name != registry()[5].name@);
            assert(dataset.name != registry()[6].name@);
            assert(canonical_names(dataset.name) == Some(seq![QUARTER@, "eu_inflation"@]));
            assert(names[6] == "eu_inflation"@);
        } else {
            assert(dataset.name != registry()[0].name@);
            assert(dataset.name != registry()[5].name@);
            assert(dataset.name != registry()[6].name@);
            assert(dataset.name != registry()[7].name@);
            assert(canonical_names(dataset.name) is None);
        }
        assert(outcomes[i] == renamed(dataset));
    }
    gathered_without_failure(outcomes, 8);
}

/// The metric of each dataset after the conversion, in the order in which
/// the datasets then stand.
pub open spec fn converted_metrics(metrics: Seq<Seq<char>>) -> Seq<Seq<char>> {
    seq![
        "eur_to_usd"@,
        metrics[1],
        metrics[2],
        metrics[3],
        metrics[4],
        "eu_inflation"@,
        "eu_government_debt_converted"@,
        "eu_gdp_converted"@,
    ]
}

/// A series under the name of its dataset is converted without failure, and
/// is then a series under that name with `_converted` behind it.
pub proof fn series_is_converted(
    table: Seq<ColumnView>,
    rate_table: Seq<ColumnView>,
    metric: Seq<char>,
)
    requires
        is_series(table, metric),
        is_series(rate_table, RATE@),
        metric + CONVERTED@ != QUARTER@,
    ensures
        conversion(table, rate_table, metric) is Ok,
        is_series(conversion(table, rate_table, metric)->Ok_0, metric + CONVERTED@),
{
    series_has_its_columns(table, metric);
    series_has_its_columns(rate_table, RATE@);
    let keys = text_cells(table[0]);
    let values = number_cells(table[1]);
    let rate_keys = text_cells(rate_table[0]);
    let rates = number_cells(rate_table[1]);
    converted_columns_agree(keys, values, rate_keys, rates, keys.len());
}

/// The renamed datasets of the registry are converted without failure: the
/// two in euro come last, and each dataset is a series.
pub proof fn registry_is_converted(datasets: Seq<DatasetView>, metrics: Seq<Seq<char>>)
    requires
        are_of_the_registry(datasets),
        metrics.len() == 8,
        forall|i: int|
            0 <= i < 8 ==> is_series((#[trigger] datasets[i]).table, renamed_metrics(metrics)[i]),
    ensures
        all_converted(datasets) is Ok,
        all_converted(datasets)->Ok_0.len() == 8,
        forall|i: int|
            0 <= i < 8 ==> is_series(
                (#[trigger] all_converted(datasets)->Ok_0[i]).table,
                converted_metrics(metrics)[i],
            ),
{
    registry_is_consistent();
    column_names_differ();
    let names = column_names();
    let after = renamed_metrics(metrics);
    assert(registry()[0].name@ == "fx_rates"@);
    assert(registry()[5].name@ == "eu_government_debt"@);
    assert(registry()[6].name@ == "eu_gdp"@);
    assert(FX_RATES@ == "fx_rates"@);
    assert(RATE@ == "eur_to_usd"@);
    assert(first_named(datasets, FX_RATES@, 0) is None);
    assert(first_named(datasets, FX_RATES@, 1) == Some(0int));
    crate::transformer::normalize::first_named_stays(datasets, FX_RATES@, 1, 8);
    let rate_table = datasets[0].table;
    assert(is_series(rate_table, after[0]));
    assert forall|i: int| 0 <= i < 8 implies is_convertible((#[trigger] datasets[i]).name) == (i
        == 5 || i == 6) by {
        assert(datasets[i].name == registry()[i].name@);
        if i < 5 {
            assert(registry()[i].name@ != registry()[5].name@);
            assert(registry()[i].name@ != registry()[6].name@);
        } else if i == 7 {
            assert(registry()[5].name@ != registry()[7].name@);
            assert(registry()[6].name@ != registry()[7].name@);
        }
    }
    assert(is_series(datasets[5].table, after[5]));
    assert(is_series(datasets[6].table, after[6]));
    assert(names[9] != names[0] && names[10] != names[0]);
    series_is_converted(datasets[5].table, rate_table, "eu_government_debt"@);
    series_is_converted(datasets[6].table, rate_table, "eu_gdp"@);
    let debt = with_table(
        datasets[5],
        conversion(datasets[5].table, rate_table, datasets[5].name)->Ok_0,
    );
    let product = with_table(
        datasets[6],
        conversion(datasets[6].table, rate_table, datasets[6].name)->Ok_0,
    );
    let none = Seq::<DatasetView>::empty();
    assert(converted(datasets, rate_table, 0) == Ok::<Seq<DatasetView>, Fault>(none));
    assert(converted(datasets, rate_table, 1) == Ok::<Seq<DatasetView>, Fault>(none));
    assert(converted(datasets, rate_table, 2) == Ok::<Seq<DatasetView>, Fault>(none));
    assert(converted(datasets, rate_table, 3) == Ok::<Seq<DatasetView>, Fault>(none));
    assert(converted(datasets, rate_table, 4) == Ok::<Seq<DatasetView>, Fault>(none));
    assert(converted(datasets, rate_table, 5) == Ok::<Seq<DatasetView>, Fault>(none));
    assert(converted(datasets, rate_table, 6) == Ok::<Seq<DatasetView>, Fault>(none.push(debt)));
    assert(converted(datasets, rate_table, 7) == Ok::<Seq<DatasetView>, Fault>(
        none.push(debt).push(product),
    ));
    assert(converted(datasets, rate_table, 8) == Ok::<Seq<DatasetView>, Fault>(
        none.push(debt).push(product),
    ));
    assert(kept(datasets, 0) == none);
    assert(kept(datasets, 1) == none.push(datasets[0]));
    assert(kept(datasets, 2) == none.push(datasets[0]).push(datasets[1]));
    assert(kept(datasets, 3) == none.push(datasets[0]).push(datasets[1]).push(datasets[2]));
    assert(kept(datasets, 4) == none.push(datasets[0]).push(datasets[1]).push(datasets[2]).push(
        datasets[3],
    ));
    let five = none.push(datasets[0]).push(datasets[1]).push(datasets[2]).push(datasets[3]).push(
        datasets[4],
    );
    assert(kept(datasets, 5) == five);
    assert(kept(datasets, 6) == five);
    assert(kept(datasets, 7) == five);
    assert(kept(datasets, 8) == five.push(datasets[7]));
    let all = all_converted(datasets)->Ok_0;
    assert(all =~= five.push(datasets[7]) + none.push(debt).push(product));
    let metrics_after = converted_metrics(metrics);
    assert forall|i: int| 0 <= i < 8 implies is_series(
        (#[trigger] all[i]).table,
        metrics_after[i],
    ) by {
        if i < 5 {
            assert(all[i] == datasets[i]);
            assert(after[i] == metrics_after[i]);
        } else if i == 5 {
            assert(all[i] == datasets[7]);
            assert(after[7] == metrics_after[5]);
        } else if i == 6 {
            assert(all[i] == debt);
        } else {
            assert(all[i] == product);
        }
    }
}

/// The metrics of the wide table before the final names are given, in the
/// order of its columns.
pub open spec fn joined_metrics() -> Seq<Seq<char>> {
    seq![
        "eu_gdp_converted"@,
        "eur_to_usd"@,
        "sp500_usd"@,
        "us_gdp_usd"@,
        "us_total_debt_usd"@,
        "us_inflation_usd"@,
        "eu_inflation"@,
        "eu_government_debt_converted"@,
    ]
}

/// The metrics under which the normalized datasets of the registry that
/// keep their names come: those of the equity index and of the United
/// States.
pub open spec fn has_the_aliases(metrics: Seq<Seq<char>>) -> bool {
    &&& metrics.len() == 8
    &&& metrics[1] == "sp500_usd"@
    &&& metrics[2] == "us_gdp_usd"@
    &&& metrics[3] == "us_total_debt_usd"@
    &&& metrics[4] == "us_inflation_usd"@
}

/// What is wrong where the datasets have no quarter in common.
pub open spec fn nothing_in_common() -> Fault {
    Fault::Join { reason: NO_COMMON_QUARTER@ }
}

/// The converted datasets of the registry are joined into a wide table;
/// the join fails only where they have no quarter in common.
pub proof fn registry_is_joined(datasets: Seq<DatasetView>, metrics: Seq<Seq<char>>)
    requires
        datasets.len() == 8,
        has_the_aliases(metrics),
        forall|i: int|
            0 <= i < 8 ==> is_series((#[trigger] datasets[i]).table, converted_metrics(metrics)[i]),
    ensures
        match all_joined(datasets) {
            Ok(wide) => is_wide(wide, joined_metrics()),
            Err(fault) => fault == nothing_in_common(),
        },
{
    column_names_differ();
    let names = column_names();
    let tables = cleaned(datasets);
    let after = converted_metrics(metrics);
    assert(after =~= seq![
        names[1],
        names[2],
        names[3],
        names[4],
        names[5],
        names[6],
        names[9],
        names[10],
    ]);
    assert forall|i: int| 0 <= i < tables.len() implies is_series(#[trigger] tables[i], after[i]) by {
        assert(is_series(datasets[i].table, after[i]));
        series_stays_without_nulls(datasets[i].table, after[i]);
    }
    joining_series_gives_a_wide_table(tables, after, 7);
    assert(seq![after.last()] + after.take(7) =~= joined_metrics());
}

/// The metrics of the wide table after the first four of its final names
/// are given.
pub open spec fn half_named_metrics() -> Seq<Seq<char>> {
    seq![
        "eu_gdp_converted"@,
        "fx_rate_eur_to_usd"@,
        "sp500_usd"@,
        "us_gdp_usd_billions"@,
        "us_total_debt_usd_millions"@,
        "us_inflation_perc"@,
        "eu_inflation"@,
        "eu_government_debt_converted"@,
    ]
}

/// The wide table of the registry gets the first four of its final names
/// without failure.
#[verifier::rlimit(30)]
#[verifier::spinoff_prover]
pub proof fn wide_table_is_half_named(wide: Seq<ColumnView>)
    requires
        is_wide(wide, joined_metrics()),
    ensures
        renamed_through(wide, final_names(), 4) is Ok,
        is_wide(renamed_through(wide, final_names(), 4)->Ok_0, half_named_metrics()),
        all_distinct(seq![QUARTER@] + half_named_metrics()),
{
    column_names_differ();
    let names = column_names();
    let changes = final_names();
    let m0 = seq![
        names[10],
        names[1],
        names[2],
        names[3],
        names[4],
        names[5],
        names[6],
        names[9],
    ];
    assert(joined_metrics() =~= m0);
    assert(changes[0].old@ == names[1] && changes[0].new@ == names[11]);
    assert(changes[1].old@ == names[3] && changes[1].new@ == names[12]);
    assert(changes[2].old@ == names[4] && changes[2].new@ == names[13]);
    assert(changes[3].old@ == names[5] && changes[3].new@ == names[14]);
    let q = seq![QUARTER@];
    assert forall|a: int, b: int| 0 <= a < b < (q + m0).len() implies (q + m0)[a] != (q + m0)[b] by {
    }
    let t0 = wide;
    assert(renamed_through(t0, changes, 0) == Ok::<Seq<ColumnView>, Fault>(t0));
    rename_keeps_the_table_wide(t0, m0, 1, names[11]);
    let m1 = m0.update(1, names[11]);
    let t1 = renamed_through(t0, changes, 1)->Ok_0;
    rename_keeps_the_table_wide(t1, m1, 3, names[12]);
    let m2 = m1.update(3, names[12]);
    let t2 = renamed_through(t0, changes, 2)->Ok_0;
    rename_keeps_the_table_wide(t2, m2, 4, names[13]);
    let m3 = m2.update(4, names[13]);
    let t3 = renamed_through(t0, changes, 3)->Ok_0;
    rename_keeps_the_table_wide(t3, m3, 5, names[14]);
    let m4 = m3.update(5, names[14]);
    assert(m4 =~= half_named_metrics());
}

/// The wide table of the registry gets its final names without failure.
#[verifier::rlimit(30)]
#[verifier::spinoff_prover]
pub proof fn wide_table_is_named(wide: Seq<ColumnView>)
    requires
        is_wide(wide, joined_metrics()),
    ensures
        renamed_through(wide, final_names(), 7) is Ok,
        names_of(renamed_through(wide, final_names(), 7)->Ok_0) == final_columns(),
{
    wide_table_is_half_named(wide);
    column_names_differ();
    let names = column_names();
    let changes = final_names();
    let m4 = seq![
        names[10],
        names[11],
        names[2],
        names[12],
        names[13],
        names[14],
        names[6],
        names[9],
    ];
    assert(half_named_metrics() =~= m4);
    assert(changes[4].old@ == names[6] && changes[4].new@ == names[15]);
    assert(changes[5].old@ == names[9] && changes[5].new@ == names[16]);
    assert(changes[6].old@ == names[10] && changes[6].new@ == names[17]);
    let q = seq![QUARTER@];
    let t4 = renamed_through(wide, changes, 4)->Ok_0;
    rename_keeps_the_table_wide(t4, m4, 6, names[15]);
    let m5 = m4.update(6, names[15]);
    let t5 = renamed_through(wide, changes, 5)->Ok_0;
    rename_keeps_the_table_wide(t5, m5, 7, names[16]);
    let m6 = m5.update(7, names[16]);
    let t6 = renamed_through(wide, changes, 6)->Ok_0;
    rename_keeps_the_table_wide(t6, m6, 0, names[17]);
    let m7 = m6.update(0, names[17]);
    assert(q + m7 =~= final_columns());
}

/// A table of quarterly averages is a series under its alias.
pub proof fn averages_are_a_series(
    labels: Seq<Option<Seq<char>>>,
    values: Seq<Option<crate::frame::amount::Formula>>,
    alias: Seq<char>,
)
    requires
        alias != QUARTER@,
    ensures
        is_series(crate::transformer::normalize::averaged(labels, values, alias), alias),
{
}

/// A table of observations of the data service is a series under `value`.
pub proof fn observations_are_a_series(readings: Seq<crate::extractor::ecb::ReadingView>)
    ensures
        is_series(crate::extractor::ecb::table_of(readings), crate::extractor::ecb::VALUE_COLUMN@),
{
    reveal_strlit("quarter");
    reveal_strlit("value");
    assert(QUARTER@ == "quarter"@);
    assert(crate::extractor::ecb::VALUE_COLUMN@ == "value"@);
    assert(QUARTER@.len() == 7 && crate::extractor::ecb::VALUE_COLUMN@.len() == 5);
}

/// The normalized datasets of the registry give the wide table, and the
/// wide table has the columns that the sinks expect: the quarter and the
/// eight metrics under their final names. No stage fails but the join, and
/// that only where the datasets have no quarter in common. Each dataset is to
/// be a series, and those of the equity index and of the United States come
/// under the aliases of the registry.
pub proof fn wide_table_has_its_columns(datasets: Seq<DatasetView>, metrics: Seq<Seq<char>>)
    requires
        are_of_the_registry(datasets),
        has_the_aliases(metrics),
        forall|i: int| 0 <= i < 8 ==> is_series((#[trigger] datasets[i]).table, metrics[i]),
    ensures
        match transformed(datasets) {
            Ok(wide) => names_of(wide) == final_columns(),
            Err(fault) => fault == nothing_in_common(),
        },
{
    registry_is_renamed(datasets, metrics);
    let renamed = gathered(each_renamed(datasets), 8)->Ok_0;
    registry_is_converted(renamed, metrics);
    let converted = all_converted(renamed)->Ok_0;
    registry_is_joined(converted, metrics);
    if all_joined(converted) is Ok {
        wide_table_is_named(all_joined(converted)->Ok_0);
    }
}

} // verus!
