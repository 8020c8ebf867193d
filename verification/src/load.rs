use vstd::prelude::*;

use crate::world::World;
use vstd::string::StrSliceExecFns;

verus! {

/// Why a textual grid description was rejected.
#[derive(Clone, Copy, Debug, PartialEq, Eq, Structural)]
pub enum LoadError {
    /// A character other than `'0'`, `'1'` or a line break was found.
    InvalidCharacter,
    /// A row's length differs from the length fixed by the first row.
    InconsistentRowLength,
}

/// The row length the scan holds rows to: the length fixed by the first
/// completed row, or `fallback` while no row has been completed yet.
pub open spec fn columns_or(columns: Option<int>, fallback: int) -> int {
    match columns {
        Option::Some(c) => c,
        Option::None => fallback,
    }
}

/// One left-to-right scan of the remaining input `s`.
///
/// `columns` is the row length fixed by the first completed row (`None`
/// while still inside the first row), `counter` the number of cells read on
/// the current row, `rows` the number of completed rows, and `cells` the
/// cell values read so far, row-major. `'0'` reads a dead cell, `'1'` an
/// alive one, `'\n'` completes a row; any other character is invalid. A row
/// whose length differs from the first row's is rejected where it ends, so
/// the earlier of the two violations decides which error the text gets. A
/// final row left unterminated counts if it is non-empty; a trailing
/// newline adds no row.
pub open spec fn scan(
    s: Seq<char>,
    columns: Option<int>,
    counter: int,
    rows: int,
    cells: Seq<bool>,
) -> Result<(int, int, Seq<bool>), LoadError>
    decreases s.len(),
{
    if s.len() == 0 {
        if counter > 0 {
            let c = columns_or(columns, counter);
            if counter == c {
                Result::Ok((rows + 1, c, cells))
            } else {
                Result::Err(LoadError::InconsistentRowLength)
            }
        } else {
            Result::Ok((rows, columns_or(columns, 0), cells))
        }
    } else if s[0] == '0' {
        scan(s.drop_first(), columns, counter + 1, rows, cells.push(false))
    } else if s[0] == '1' {
        scan(s.drop_first(), columns, counter + 1, rows, cells.push(true))
    } else if s[0] == '\n' {
        let c = columns_or(columns, counter);
        if counter == c {
            scan(s.drop_first(), Option::Some(c), 0, rows + 1, cells)
        } else {
            Result::Err(LoadError::InconsistentRowLength)
        }
    } else {
        Result::Err(LoadError::InvalidCharacter)
    }
}

/// The grid described by the text `s`: its row count, its column count and
/// its cells, row-major — or the error the text earns.
pub open spec fn parse_grid(s: Seq<char>) -> Result<(int, int, Seq<bool>), LoadError> {
    scan(s, Option::None, 0, 0, Seq::empty())
}

/// The world `world` holds exactly the grid `g` in both of its buffers.
pub open spec fn holds_grid(world: World, g: (int, int, Seq<bool>)) -> bool {
    &&& world.wf()
    &&& world.num_of_rows as int == g.0
    &&& world.num_of_columns as int == g.1
    &&& world.current.data@ == g.2
    &&& world.next.data@ == g.2
}

/// The view of the scan state held by the executable loader.
pub open spec fn columns_view(columns: Option<usize>) -> Option<int> {
    match columns {
        Option::Some(c) => Option::Some(c as int),
        Option::None => Option::None,
    }
}

/// Parses a textual grid, each line one row, `'0'` a dead cell and `'1'` an
/// alive one, and builds the world it describes. Malformed text is rejected:
/// an invalid character or an inconsistent row length, whichever violation
/// comes first.
pub fn extract_world(d: &str) -> (result: Result<World, LoadError>)
    ensures
        match parse_grid(d@) {
            Result::Ok(g) => match result {
                Result::Ok(world) => holds_grid(world, g),
                Result::Err(_) => false,
            },
            Result::Err(e) => match result {
                Result::Ok(_) => false,
                Result::Err(e2) => e2 == e,
            },
        },
{
    let n: usize = d.unicode_len();
    let mut cells: Vec<bool> = Vec::new();
    let mut counter: usize = 0;
    let mut rows: usize = 0;
    let mut columns: Option<usize> = Option::None;
    let mut k: usize = 0;
    proof {
        assert(d@.skip(0) =~= d@);
    }
    while k < n
        invariant
            n == d@.len(),
            k <= n,
            counter <= k,
            rows + counter <= k,
            match columns {
                Option::Some(c) => c <= k && cells@.len() == rows * c + counter,
                Option::None => rows == 0 && cells@.len() == counter,
            },
            scan(d@.skip(k as int), columns_view(columns), counter as int, rows as int, cells@)
                == parse_grid(d@),
        decreases n - k,
    {
        let ch: char = d.get_char(k);
        proof {
            assert(d@.skip(k as int)[0] == d@[k as int]);
            assert(d@.skip(k as int).drop_first() =~= d@.skip(k as int + 1));
        }
        if ch == '0' {
            cells.push(false);
            counter = counter + 1;
        } else if ch == '1' {
            cells.push(true);
            counter = counter + 1;
        } else if ch == '\n' {
            let c: usize = match columns {
                Option::Some(c0) => c0,
                Option::None => counter,
            };
            if counter != c {
                return Result::Err(LoadError::InconsistentRowLength);
            }
            proof {
                assert((rows + 1) * c == rows * c + c) by (nonlinear_arith);
            }
            columns = Option::Some(c);
            rows = rows + 1;
            counter = 0;
        } else {
            return Result::Err(LoadError::InvalidCharacter);
        }
        k = k + 1;
    }
    proof {
        assert(d@.skip(n as int) =~= Seq::<char>::empty());
    }
    if counter > 0 {
        let c: usize = match columns {
            Option::Some(c0) => c0,
            Option::None => counter,
        };
        if counter != c {
            return Result::Err(LoadError::InconsistentRowLength);
        }
        proof {
            assert((rows + 1) * c == rows * c + c) by (nonlinear_arith);
        }
        columns = Option::Some(c);
        rows = rows + 1;
    }
    let final_columns: usize = match columns {
        Option::Some(c0) => c0,
        Option::None => 0,
    };
    let world = World::new(rows, final_columns, cells);
    Result::Ok(world)
}

} // verus!
