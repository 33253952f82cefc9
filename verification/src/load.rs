//! Loading the grid from tabular input: the raw bytes are split into
//! records of string fields by the csv reader, then parsed and checked into
//! a well-formed 360 x 100 grid of labels by verified code. A table of the
//! wrong shape, or one holding a token outside the recognized set, fails the
//! load before any classification can run.

use vstd::prelude::*;

use crate::distance::{H_SIZE, V_SIZE};
use crate::grid::{grid_view, grid_wf, ColorMap};
use crate::label::{parse_token_spec, Label};

verus! {

/// Why loading the grid failed.
#[derive(Clone, Copy, Debug, PartialEq, Eq, Structural)]
pub enum LoadError {
    /// The reader rejected the input: it is not a readable table.
    Malformed,
    /// The table does not hold exactly 360 rows of 100 values each.
    Dimensions,
    /// A field holds a token outside the recognized set: the five color
    /// tokens and the unlabeled marker.
    BadToken,
}

/// The mathematical view of parsed records: rows of field tokens.
pub open spec fn records_view(recs: Seq<Vec<String>>) -> Seq<Seq<Seq<char>>> {
    Seq::new(recs.len(), |h: int| Seq::new(recs[h]@.len(), |v: int| recs[h]@[v]@))
}

/// What the table reader yields on the given input: the records, each a
/// row of field tokens, or nothing where the reader rejects the input.
pub uninterp spec fn csv_records_of(data: Seq<u8>) -> Option<Seq<Seq<Seq<char>>>>;

/// Relies on csv::ReaderBuilder and csv::Reader::records, with headers off
/// and the default configuration: splitting the input bytes into records of
/// string fields depends on the bytes alone, and a malformed input (bad
/// encoding, rows of unequal width) is reported as a read error.
#[verifier::external_body]
fn csv_records(data: &[u8]) -> (r: Option<Vec<Vec<String>>>)
    ensures
        match r {
            Some(recs) => csv_records_of(data@) == Some(records_view(recs@)),
            None => csv_records_of(data@) is None,
        },
{
    let mut rdr = csv::ReaderBuilder::new().has_headers(false).from_reader(data);
    let mut out: Vec<Vec<String>> = Vec::new();
    for result in rdr.records() {
        match result {
            Ok(rec) => out.push(rec.iter().map(|f| f.to_string()).collect()),
            Err(_) => return None,
        }
    }
    Some(out)
}

/// The records have the grid's shape: 360 rows of 100 tokens each.
pub open spec fn records_shape_ok(recs: Seq<Seq<Seq<char>>>) -> bool {
    &&& recs.len() == H_SIZE
    &&& forall|h: int| 0 <= h < recs.len() ==> (#[trigger] recs[h]).len() == V_SIZE
}

/// Every token of every record is recognized: a color token or the
/// unlabeled marker.
pub open spec fn records_tokens_ok(recs: Seq<Seq<Seq<char>>>) -> bool {
    forall|h: int, v: int|
        0 <= h < recs.len() && 0 <= v < recs[h].len() ==> parse_token_spec(
            #[trigger] recs[h][v],
        ) is Some
}

/// The grid that records of recognized tokens stand for: each token parsed
/// to its label.
pub open spec fn grid_of_records(recs: Seq<Seq<Seq<char>>>) -> Seq<Seq<Label>> {
    Seq::new(
        recs.len(),
        |h: int| Seq::new(recs[h].len(), |v: int| parse_token_spec(recs[h][v])->Some_0),
    )
}

/// Builds the grid from parsed records: every token of every row parsed to
/// its label. Fails when the records do not have the grid's shape, or, with
/// the shape right, when some token is outside the recognized set.
pub fn grid_from_records(records: &Vec<Vec<String>>) -> (r: Result<ColorMap, LoadError>)
    ensures
        ({
            let recs = records_view(records@);
            &&& (r is Ok) <==> (records_shape_ok(recs) && records_tokens_ok(recs))
            &&& (r == Err::<ColorMap, LoadError>(LoadError::Dimensions)) <==> !records_shape_ok(
                recs,
            )
            &&& (r == Err::<ColorMap, LoadError>(LoadError::BadToken)) <==> (records_shape_ok(recs)
                && !records_tokens_ok(recs))
            &&& r is Ok ==> grid_wf(grid_view(r->Ok_0)) && grid_view(r->Ok_0) == grid_of_records(
                recs,
            )
        }),
{
    let ghost recs = records_view(records@);
    if records.len() != H_SIZE {
        return Err(LoadError::Dimensions);
    }
    let mut h: usize = 0;
    while h < H_SIZE
        invariant
            recs == records_view(records@),
            recs.len() == H_SIZE,
            h <= H_SIZE,
            forall|h2: int| 0 <= h2 < h ==> (#[trigger] recs[h2]).len() == V_SIZE,
        decreases H_SIZE - h,
    {
        if records[h].len() != V_SIZE {
            proof {
                assert(recs[h as int].len() != V_SIZE);
            }
            return Err(LoadError::Dimensions);
        }
        h = h + 1;
    }
    let mut grid: ColorMap = Vec::new();
    h = 0;
    while h < H_SIZE
        invariant
            recs == records_view(records@),
            records_shape_ok(recs),
            h <= H_SIZE,
            grid@.len() == h,
            forall|h2: int, v2: int|
                0 <= h2 < h && 0 <= v2 < V_SIZE ==> parse_token_spec(
                    #[trigger] recs[h2][v2],
                ) is Some,
            forall|h2: int|
                0 <= h2 < h ==> (#[trigger] grid@[h2])@ == Seq::new(
                    recs[h2].len(),
                    |v: int| parse_token_spec(recs[h2][v])->Some_0,
                ),
        decreases H_SIZE - h,
    {
        let row = &records[h];
        let mut labs: Vec<Label> = Vec::new();
        let mut v: usize = 0;
        while v < V_SIZE
            invariant
                recs == records_view(records@),
                records_shape_ok(recs),
                h < H_SIZE,
                row == records@[h as int],
                row@.len() == V_SIZE,
                v <= V_SIZE,
                labs@.len() == v,
                forall|v2: int|
                    0 <= v2 < v ==> parse_token_spec(#[trigger] recs[h as int][v2]) is Some,
                forall|v2: int|
                    0 <= v2 < v ==> #[trigger] labs@[v2] == parse_token_spec(
                        recs[h as int][v2],
                    )->Some_0,
            decreases V_SIZE - v,
        {
            proof {
                assert(recs[h as int][v as int] == row@[v as int]@);
            }
            let lab = match Label::parse(row[v].as_str()) {
                Some(l) => l,
                None => {
                    proof {
                        assert(parse_token_spec(recs[h as int][v as int]) is None);
                    }
                    return Err(LoadError::BadToken);
                },
            };
            labs.push(lab);
            v = v + 1;
        }
        proof {
            assert(labs@ =~= Seq::new(
                recs[h as int].len(),
                |v: int| parse_token_spec(recs[h as int][v])->Some_0,
            ));
        }
        grid.push(labs);
        h = h + 1;
    }
    proof {
        assert(grid_view(grid) =~~= grid_of_records(recs));
    }
    Ok(grid)
}

/// Loads the grid from raw tabular bytes: the reader splits them into
/// records, and the records are parsed and checked into a well-formed grid.
/// Any failure is fatal and reported before classification can run: an
/// unreadable table, a wrong shape, or an unparseable label token.
pub fn csv_read(data: &[u8]) -> (r: Result<ColorMap, LoadError>)
    ensures
        match csv_records_of(data@) {
            Option::None => r == Err::<ColorMap, LoadError>(LoadError::Malformed),
            Option::Some(recs) => {
                &&& (r is Ok) <==> (records_shape_ok(recs) && records_tokens_ok(recs))
                &&& (r == Err::<ColorMap, LoadError>(LoadError::Dimensions)) <==> !records_shape_ok(
                    recs,
                )
                &&& (r == Err::<ColorMap, LoadError>(LoadError::BadToken)) <==> (records_shape_ok(
                    recs,
                ) && !records_tokens_ok(recs))
                &&& r is Ok ==> grid_wf(grid_view(r->Ok_0)) && grid_view(r->Ok_0)
                    == grid_of_records(recs)
            },
        },
{
    match csv_records(data) {
        Option::Some(records) => grid_from_records(&records),
        Option::None => Err(LoadError::Malformed),
    }
}

} // verus!
