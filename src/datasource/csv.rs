//! Locating the columns of a CSV price file: a "date" column, and an
//! "adjusted close" or "adj. close" column, in any letter case. Where a name
//! repeats, the last column of that name counts.

use crate::datasource::Error;
use vstd::prelude::*;

verus! {

/// The lowercase form of a text.
pub uninterp spec fn lower_of(s: Seq<char>) -> Seq<char>;

/// Relies on `str::to_lowercase`: the lowercase form, which depends on the
/// characters of `s` alone.
#[verifier::external_body]
fn lowercase(s: &str) -> (r: String)
    ensures
        r@ == lower_of(s@),
{
    s.to_lowercase()
}

/// True for the (lowercase) name of the date column.
pub open spec fn is_date_column(name: Seq<char>) -> bool {
    name == "date"@
}

/// True for a (lowercase) name of the adjusted closing price column.
pub open spec fn is_close_column(name: Seq<char>) -> bool {
    name == "adjusted close"@ || name == "adj. close"@
}

/// The index of the last date column of `names`, or -1 if there is none.
pub open spec fn last_date_column(names: Seq<Seq<char>>) -> int
    decreases names.len(),
{
    if names.len() == 0 {
        -1
    } else if is_date_column(names.last()) {
        names.len() - 1
    } else {
        last_date_column(names.drop_last())
    }
}

/// The index of the last adjusted close column of `names`, or -1 if there is
/// none.
pub open spec fn last_close_column(names: Seq<Seq<char>>) -> int
    decreases names.len(),
{
    if names.len() == 0 {
        -1
    } else if is_close_column(names.last()) {
        names.len() - 1
    } else {
        last_close_column(names.drop_last())
    }
}

/// The texts of a row of strings.
pub open spec fn texts(row: Seq<String>) -> Seq<Seq<char>> {
    row.map_values(|s: String| s@)
}

/// The lowercase texts of a row of strings.
pub open spec fn lowered_texts(row: Seq<String>) -> Seq<Seq<char>> {
    row.map_values(|s: String| lower_of(s@))
}

/// The indices of the date and adjusted close columns among the lowercase
/// header names `lowered`; fails if either is missing.
pub fn header_indices(lowered: &Vec<String>) -> (r: Result<(usize, usize), Error>)
    ensures
        r is Ok <==> last_date_column(texts(lowered@)) >= 0 && last_close_column(texts(lowered@))
            >= 0,
        r matches Ok(ix) ==> ix.0 == last_date_column(texts(lowered@)) && ix.1
            == last_close_column(texts(lowered@)),
        r matches Err(e) ==> e is CsvError,
{
    let date_name = "date".to_owned();
    let adjusted_name = "adjusted close".to_owned();
    let adj_name = "adj. close".to_owned();
    let n = lowered.len();
    let mut date_index: Option<usize> = None;
    let mut close_index: Option<usize> = None;
    let mut i: usize = 0;
    while i < n
        invariant
            n == lowered@.len(),
            date_name@ == "date"@,
            adjusted_name@ == "adjusted close"@,
            adj_name@ == "adj. close"@,
            i <= n,
            last_date_column(texts(lowered@).subrange(0, i as int)) == match date_index {
                Some(k) => k as int,
                None => -1,
            },
            last_close_column(texts(lowered@).subrange(0, i as int)) == match close_index {
                Some(k) => k as int,
                None => -1,
            },
        decreases n - i,
    {
        let ghost prefix = texts(lowered@).subrange(0, i as int + 1);
        assert(prefix.drop_last() =~= texts(lowered@).subrange(0, i as int));
        assert(prefix.last() == lowered@[i as int]@);
        if lowered[i] == date_name {
            date_index = Some(i);
        }
        if lowered[i] == adjusted_name || lowered[i] == adj_name {
            close_index = Some(i);
        }
        i += 1;
    }
    assert(texts(lowered@).subrange(0, n as int) =~= texts(lowered@));
    match (date_index, close_index) {
        (Some(d), Some(c)) => Ok((d, c)),
        _ => Err(
            Error::CsvError(
                "Header does not have required columns (\"date\" and either \"adjusted close\" or \"adj. close\")".to_owned(),
            ),
        ),
    }
}

/// The indices of the date and adjusted close columns of a CSV header row,
/// matching names in any letter case; fails if either is missing.
pub fn required_field_indices(row: &Vec<String>) -> (r: Result<(usize, usize), Error>)
    ensures
        r is Ok <==> last_date_column(lowered_texts(row@)) >= 0 && last_close_column(
            lowered_texts(row@),
        ) >= 0,
        r matches Ok(ix) ==> ix.0 == last_date_column(lowered_texts(row@)) && ix.1
            == last_close_column(lowered_texts(row@)),
        r matches Err(e) ==> e is CsvError,
{
    let n = row.len();
    let mut lowered: Vec<String> = Vec::new();
    let mut i: usize = 0;
    while i < n
        invariant
            n == row@.len(),
            i <= n,
            texts(lowered@) =~= lowered_texts(row@).subrange(0, i as int),
        decreases n - i,
    {
        let name = lowercase(row[i].as_str());
        let ghost before = lowered@;
        lowered.push(name);
        assert(texts(lowered@) =~= texts(before).push(name@));
        assert(lowered_texts(row@).subrange(0, i as int + 1) =~= lowered_texts(row@).subrange(
            0,
            i as int,
        ).push(lower_of(row@[i as int]@)));
        i += 1;
    }
    assert(lowered_texts(row@).subrange(0, n as int) =~= lowered_texts(row@));
    header_indices(&lowered)
}

} // verus!
