use vstd::prelude::*;
use vstd::string::StringSliceAdditionalSpecFns;
use vstd::utf8::encode_utf8;
use crate::fixed::ONE;
use crate::parameter_tuning::ParamKey;
use crate::parameter_tuning::TuningResult;
use crate::results_analyzer::is_csv_columns;
use crate::results_analyzer::value_or_zero;
use crate::results_analyzer::ResultsAnalyzer;

verus! {

/// The number of decimals that a fixed-point value is written with: one for
/// each power of ten in [`ONE`], so that nothing is lost.
pub const DECIMALS: usize = 9;

/// The character of a decimal digit.
pub open spec fn digit(d: int) -> u8 {
    (48 + d) as u8
}

/// The decimal digits of a number, without leading zeros.
pub open spec fn decimal(n: nat) -> Seq<u8>
    decreases n,
{
    if n < 10 {
        seq![digit(n as int)]
    } else {
        decimal(n / 10).push(digit((n % 10) as int))
    }
}

/// The last `width` decimal digits of a number, with leading zeros where it
/// has fewer.
pub open spec fn padded(n: nat, width: nat) -> Seq<u8>
    decreases width,
{
    if width == 0 {
        Seq::empty()
    } else {
        padded(n / 10, (width - 1) as nat).push(digit((n % 10) as int))
    }
}

/// A number with a minus sign before it where it is negative.
pub open spec fn signed(value: int, magnitude: Seq<u8>) -> Seq<u8> {
    if value < 0 {
        seq![45u8] + magnitude
    } else {
        magnitude
    }
}

/// A count in decimal.
pub open spec fn count_text(value: int) -> Seq<u8> {
    signed(value, decimal((if value < 0 { -value } else { value }) as nat))
}

/// A fixed-point value in decimal: its whole part, a point, and all nine
/// decimals.
pub open spec fn fixed_text(value: int) -> Seq<u8> {
    let magnitude = (if value < 0 { -value } else { value }) as nat;
    signed(
        value,
        decimal(magnitude / (ONE as nat)) + seq![46u8] + padded(
            magnitude % (ONE as nat),
            DECIMALS as nat,
        ),
    )
}

/// A flag as a word.
pub open spec fn flag_text(flag: bool) -> Seq<u8> {
    if flag {
        "true".spec_bytes()
    } else {
        "false".spec_bytes()
    }
}

/// The value under a hyperparameter's name: a count, or a fixed-point value.
pub open spec fn cell_text(key: ParamKey, value: i128) -> Seq<u8> {
    if key.counts() {
        count_text(value as int)
    } else {
        fixed_text(value as int)
    }
}

/// Appends a text.
pub fn push_text(out: &mut Vec<u8>, text: &str)
    ensures
        final(out)@ == old(out)@ + text.spec_bytes(),
{
    let bytes: &[u8] = text.as_bytes();
    let mut i: usize = 0;
    while i < bytes.len()
        invariant
            i <= bytes@.len(),
            bytes@ == text.spec_bytes(),
            out@ == old(out)@ + bytes@.subrange(0, i as int),
        decreases bytes@.len() - i,
    {
        out.push(bytes[i]);
        i += 1;
    }
}

/// Appends the decimal digits of a number.
pub fn push_decimal(out: &mut Vec<u8>, n: u128)
    ensures
        final(out)@ == old(out)@ + decimal(n as nat),
    decreases n,
{
    if n >= 10 {
        push_decimal(out, n / 10);
    }
    let last: u8 = 48 + (n % 10) as u8;
    out.push(last);
}

/// Appends the last `width` decimal digits of a number.
pub fn push_padded(out: &mut Vec<u8>, n: u128, width: usize)
    ensures
        final(out)@ == old(out)@ + padded(n as nat, width as nat),
    decreases width,
{
    if width > 0 {
        push_padded(out, n / 10, width - 1);
        let last: u8 = 48 + (n % 10) as u8;
        out.push(last);
    }
}

/// The magnitude of a value.
fn magnitude_of(value: i128) -> (magnitude: u128)
    ensures
        magnitude == if value < 0 { -value } else { value as int },
{
    if value < 0 {
        (-(value + 1)) as u128 + 1
    } else {
        value as u128
    }
}

/// Appends a count in decimal.
pub fn push_count(out: &mut Vec<u8>, value: i128)
    ensures
        final(out)@ == old(out)@ + count_text(value as int),
{
    if value < 0 {
        out.push(45);
    }
    push_decimal(out, magnitude_of(value));
}

/// Appends a fixed-point value in decimal.
pub fn push_fixed(out: &mut Vec<u8>, value: i128)
    ensures
        final(out)@ == old(out)@ + fixed_text(value as int),
{
    if value < 0 {
        out.push(45);
    }
    let magnitude: u128 = magnitude_of(value);
    push_decimal(out, magnitude / ONE as u128);
    out.push(46);
    push_padded(out, magnitude % ONE as u128, DECIMALS);
}

/// Appends a flag as a word.
pub fn push_flag(out: &mut Vec<u8>, flag: bool)
    ensures
        final(out)@ == old(out)@ + flag_text(flag),
{
    if flag {
        push_text(out, "true");
    } else {
        push_text(out, "false");
    }
}

/// The names of the leading columns, which every table has.
pub open spec fn header_text() -> Seq<u8> {
    "algorithm,run_id,max_fitness,execution_time,score,converged,generations,timeout_reached".spec_bytes()
}

/// The names of the first `n` hyperparameter columns, each after a comma.
pub open spec fn names_text(columns: Seq<ParamKey>, n: int) -> Seq<u8>
    decreases n,
{
    if n <= 0 {
        Seq::empty()
    } else {
        names_text(columns, n - 1) + seq![44u8] + encode_utf8(columns[n - 1].label())
    }
}

/// The values of an outcome under the first `n` hyperparameter columns, each
/// after a comma; zero stands where the outcome has no value.
pub open spec fn cells_text(result: TuningResult, columns: Seq<ParamKey>, n: int) -> Seq<u8>
    decreases n,
{
    if n <= 0 {
        Seq::empty()
    } else {
        cells_text(result, columns, n - 1) + seq![44u8] + cell_text(
            columns[n - 1],
            value_or_zero(result.parameters, columns[n - 1]),
        )
    }
}

/// The leading cells of an outcome's row: algorithm, run number, best
/// fitness, execution time in seconds, score, convergence, generations and
/// timeout.
pub open spec fn leading_text(result: TuningResult) -> Seq<u8> {
    encode_utf8(result.algorithm.label()) + seq![44u8] + count_text(result.run_id as int)
        + seq![44u8] + fixed_text(result.max_fitness as int) + seq![44u8] + fixed_text(
        result.execution_time as int,
    ) + seq![44u8] + fixed_text(result.score as int) + seq![44u8] + flag_text(result.converged)
        + seq![44u8] + count_text(result.generations as int) + seq![44u8] + flag_text(
        result.timeout_reached,
    )
}

/// The row of an outcome: its leading cells, its hyperparameter cells and
/// the end of the line.
pub open spec fn row_text(result: TuningResult, columns: Seq<ParamKey>) -> Seq<u8> {
    leading_text(result) + cells_text(result, columns, columns.len() as int) + seq![10u8]
}

/// The rows of the first `n` outcomes.
pub open spec fn rows_text(results: Seq<TuningResult>, columns: Seq<ParamKey>, n: int) -> Seq<u8>
    decreases n,
{
    if n <= 0 {
        Seq::empty()
    } else {
        rows_text(results, columns, n - 1) + row_text(results[n - 1], columns)
    }
}

/// The results table: a line with the leading columns' names, a line with
/// the hyperparameter columns' names, and a row for each outcome.
pub open spec fn table_text(results: Seq<TuningResult>, columns: Seq<ParamKey>) -> Seq<u8> {
    header_text() + seq![10u8] + names_text(columns, columns.len() as int) + seq![10u8]
        + rows_text(results, columns, results.len() as int)
}

/// `table` is the results table of the outcomes, its hyperparameter columns
/// those of the first outcome.
pub open spec fn is_results_table(table: Seq<u8>, results: Seq<TuningResult>) -> bool {
    exists|columns: Seq<ParamKey>|
        is_csv_columns(columns, results) && table == #[trigger] table_text(results, columns)
}

/// Appends the leading cells of an outcome's row.
pub fn push_leading(out: &mut Vec<u8>, result: &TuningResult)
    ensures
        final(out)@ == old(out)@ + leading_text(*result),
{
    push_text(out, result.algorithm.name());
    out.push(44);
    push_count(out, result.run_id as i128);
    out.push(44);
    push_fixed(out, result.max_fitness as i128);
    out.push(44);
    push_fixed(out, result.execution_time as i128);
    out.push(44);
    push_fixed(out, result.score as i128);
    out.push(44);
    push_flag(out, result.converged);
    out.push(44);
    push_count(out, result.generations as i128);
    out.push(44);
    push_flag(out, result.timeout_reached);
}

/// Appends the hyperparameter cells of an outcome's row.
pub fn push_cells(out: &mut Vec<u8>, result: &TuningResult, columns: &Vec<ParamKey>)
    ensures
        final(out)@ == old(out)@ + cells_text(*result, columns@, columns@.len() as int),
{
    let ghost start = out@;
    let mut c: usize = 0;
    while c < columns.len()
        invariant
            c <= columns@.len(),
            out@ == start + cells_text(*result, columns@, c as int),
        decreases columns@.len() - c,
    {
        let key: ParamKey = columns[c];
        let value: i128 = match result.parameters.get(key) {
            Some(value) => value,
            None => 0,
        };
        out.push(44);
        if key.is_count() {
            push_count(out, value);
        } else {
            push_fixed(out, value);
        }
        c += 1;
    }
}

/// Appends the row of an outcome.
pub fn push_row(out: &mut Vec<u8>, result: &TuningResult, columns: &Vec<ParamKey>)
    ensures
        final(out)@ == old(out)@ + row_text(*result, columns@),
{
    push_leading(out, result);
    push_cells(out, result, columns);
    out.push(10);
}

impl ResultsAnalyzer {
    /// The results table as text: a line with the leading columns' names, a
    /// line with the names of the first outcome's hyperparameters in
    /// alphabetical order, and a row for each outcome. Fixed-point values are
    /// written with all their decimals.
    pub fn results_table(results: &Vec<TuningResult>) -> (table: Vec<u8>)
        ensures
            is_results_table(table@, results@),
    {
        let columns: Vec<ParamKey> = Self::csv_columns(results);
        let mut table: Vec<u8> = Vec::new();
        push_text(
            &mut table,
            "algorithm,run_id,max_fitness,execution_time,score,converged,generations,timeout_reached",
        );
        table.push(10);
        let ghost headed = table@;
        let mut c: usize = 0;
        while c < columns.len()
            invariant
                c <= columns@.len(),
                table@ == headed + names_text(columns@, c as int),
            decreases columns@.len() - c,
        {
            table.push(44);
            push_text(&mut table, columns[c].name());
            c += 1;
        }
        table.push(10);
        let ghost named = table@;
        let mut i: usize = 0;
        while i < results.len()
            invariant
                i <= results@.len(),
                table@ == named + rows_text(results@, columns@, i as int),
            decreases results@.len() - i,
        {
            push_row(&mut table, &results[i], &columns);
            i += 1;
        }
        assert(table@ =~= table_text(results@, columns@));
        table
    }
}

} // verus!
