//! The lines that the tool prints.

use vstd::prelude::*;

use crate::table_id::TableId;

verus! {

/// The digit for a number below ten.
pub open spec fn digit(n: nat) -> char {
    ('0' as nat + n) as char
}

/// A number in decimal, without leading zeros.
pub open spec fn decimal(n: nat) -> Seq<char>
    decreases n,
{
    if n < 10 {
        seq![digit(n)]
    } else {
        decimal(n / 10).push(digit(n % 10))
    }
}

/// A number in decimal, with a sign if it is negative.
pub open spec fn signed_decimal(n: int) -> Seq<char> {
    if n < 0 {
        seq!['-'] + decimal((-n) as nat)
    } else {
        decimal(n as nat)
    }
}

/// A snapshot ID that may be missing.
pub open spec fn snapshot_text(id: Option<i64>) -> Seq<char> {
    match id {
        Some(n) => "Some("@ + signed_decimal(n as int) + ")"@,
        None => "None"@,
    }
}

/// Appends a number in decimal.
fn append_decimal(s: &mut String, n: u64)
    ensures
        final(s)@ == old(s)@ + decimal(n as nat),
    decreases n,
{
    let ghost before = s@;
    if n >= 10 {
        append_decimal(s, n / 10);
    }
    let last: u8 = (n % 10) as u8;
    s.push(('0' as u8 + last) as char);
    assert(s@ =~= before + decimal(n as nat));
}

/// Appends a snapshot ID that may be missing.
fn append_snapshot(s: &mut String, id: Option<i64>)
    ensures
        final(s)@ == old(s)@ + snapshot_text(id),
{
    let ghost before = s@;
    match id {
        Some(n) => {
            s.append("Some(");
            if n < 0 {
                s.push('-');
                let wide: i128 = n as i128;
                append_decimal(s, (-wide) as u64);
            } else {
                append_decimal(s, n as u64);
            }
            s.append(")");
            assert(s@ =~= before + snapshot_text(id));
        },
        None => {
            s.append("None");
        },
    }
}

/// The line once the paths are known.
pub open spec fn paths_loaded_text(count: nat, paths_file: Seq<char>) -> Seq<char> {
    "loaded "@ + decimal(count) + " paths from "@ + paths_file
}

/// The line once the table is known.
pub open spec fn table_loaded_text(table: Seq<char>, snapshot: Option<i64>) -> Seq<char> {
    "loaded table "@ + table + ": current snapshot = "@ + snapshot_text(snapshot)
}

/// The line once the files are described.
pub open spec fn files_built_text(count: nat, elapsed: Seq<char>) -> Seq<char> {
    "built "@ + decimal(count) + " DataFile records in "@ + elapsed
}

/// The line once the snapshot is committed.
pub open spec fn committed_text(snapshot: Option<i64>, elapsed: Seq<char>) -> Seq<char> {
    "committed snapshot "@ + snapshot_text(snapshot) + " in "@ + elapsed
}

/// Tells how many paths `paths_file` holds.
pub fn paths_loaded(count: usize, paths_file: &str) -> (line: String)
    ensures
        line@ == paths_loaded_text(count as nat, paths_file@),
        exists|digits: Seq<char>|
            {
                &&& line@ == (#[trigger] ("loaded "@ + digits)) + " paths from "@ + paths_file@
                &&& digits.len() > 0
                &&& digits.len() > 1 ==> digits[0] != '0'
                &&& forall|k: int| 0 <= k < digits.len() ==> '0' <= #[trigger] digits[k] <= '9'
                &&& digits.fold_left(
                    0int,
                    |sum: int, c: char| 10 * sum + (c as int - '0' as int),
                ) == count
            },
{
    let mut line = "loaded ".to_string();
    append_decimal(&mut line, count as u64);
    line.append(" paths from ");
    line.append(paths_file);
    proof {
        let digits = paths_loaded_shows_count(count as nat, paths_file@);
        assert(line@ == "loaded "@ + digits + " paths from "@ + paths_file@);
    }
    line
}

/// Tells which table was found, and its current snapshot.
pub fn table_loaded(table: &TableId, snapshot: Option<i64>) -> (line: String)
    ensures
        line@ == table_loaded_text(table@.dotted(), snapshot),
        snapshot is None ==> line@ == "loaded table "@ + table@.dotted() + ": current snapshot = "@ + "None"@,
        snapshot matches Some(n) ==> exists|digits: Seq<char>|
            {
                &&& line@ == "loaded table "@ + table@.dotted() + ": current snapshot = "@ + (if n < 0 { "Some(-"@ } else { "Some("@ })
                    + (#[trigger] (digits + ")"@))
                &&& digits.len() > 0
                &&& digits.len() > 1 ==> digits[0] != '0'
                &&& forall|k: int| 0 <= k < digits.len() ==> '0' <= #[trigger] digits[k] <= '9'
                &&& digits.fold_left(
                    0int,
                    |sum: int, c: char| 10 * sum + (c as int - '0' as int),
                ) == if n < 0 { -(n as int) } else { n as int }
            },
{
    let mut line = "loaded table ".to_string();
    let dotted = table.dotted();
    line.append(dotted.as_str());
    line.append(": current snapshot = ");
    append_snapshot(&mut line, snapshot);
    proof {
        let digits = table_loaded_shows_snapshot(table@.dotted(), snapshot);
        let n: int = if snapshot is Some { snapshot->0 as int } else { 0 };
        let sign = if n < 0 { "Some(-"@ } else { "Some("@ };
        let front = "loaded table "@ + table@.dotted() + ": current snapshot = "@ + sign;
        assert(front + digits + ")"@ =~= front + (digits + ")"@));
    }
    line
}

/// Tells how many files were described, and in what time.
pub fn files_built(count: usize, elapsed: &str) -> (line: String)
    ensures
        line@ == files_built_text(count as nat, elapsed@),
        exists|digits: Seq<char>|
            {
                &&& line@ == (#[trigger] ("built "@ + digits)) + " DataFile records in "@ + elapsed@
                &&& digits.len() > 0
                &&& digits.len() > 1 ==> digits[0] != '0'
                &&& forall|k: int| 0 <= k < digits.len() ==> '0' <= #[trigger] digits[k] <= '9'
                &&& digits.fold_left(
                    0int,
                    |sum: int, c: char| 10 * sum + (c as int - '0' as int),
                ) == count
            },
{
    let mut line = "built ".to_string();
    append_decimal(&mut line, count as u64);
    line.append(" DataFile records in ");
    line.append(elapsed);
    proof {
        let digits = files_built_shows_count(count as nat, elapsed@);
        assert(line@ == "built "@ + digits + " DataFile records in "@ + elapsed@);
    }
    line
}

/// Tells which snapshot was committed, and in what time.
pub fn committed(snapshot: Option<i64>, elapsed: &str) -> (line: String)
    ensures
        line@ == committed_text(snapshot, elapsed@),
        snapshot is None ==> line@ == "committed snapshot "@ + "None"@ + " in "@ + elapsed@,
        snapshot matches Some(n) ==> exists|digits: Seq<char>|
            {
                &&& line@ == "committed snapshot "@ + (if n < 0 { "Some(-"@ } else { "Some("@ })
                    + (#[trigger] (digits + ")"@)) + " in "@ + elapsed@
                &&& digits.len() > 0
                &&& digits.len() > 1 ==> digits[0] != '0'
                &&& forall|k: int| 0 <= k < digits.len() ==> '0' <= #[trigger] digits[k] <= '9'
                &&& digits.fold_left(
                    0int,
                    |sum: int, c: char| 10 * sum + (c as int - '0' as int),
                ) == if n < 0 { -(n as int) } else { n as int }
            },
{
    let mut line = "committed snapshot ".to_string();
    append_snapshot(&mut line, snapshot);
    line.append(" in ");
    line.append(elapsed);
    proof {
        let digits = committed_shows_snapshot(snapshot, elapsed@);
        let n: int = if snapshot is Some { snapshot->0 as int } else { 0 };
        let sign = if n < 0 { "Some(-"@ } else { "Some("@ };
        let front = "committed snapshot "@ + sign;
        assert(front + digits + ")"@ =~= front + (digits + ")"@));
    }
    line
}

/// A number is written in decimal digits, without a leading zero, that read back in base
/// ten as the number.
pub proof fn decimal_reads_back(n: nat)
    ensures
        decimal(n).len() > 0,
        decimal(n).len() > 1 ==> decimal(n)[0] != '0',
        forall|k: int| 0 <= k < decimal(n).len() ==> '0' <= #[trigger] decimal(n)[k] <= '9',
        decimal(n).fold_left(0int, |sum: int, c: char| 10 * sum + (c as int - '0' as int)) == n,
    decreases n,
{
    let read = |sum: int, c: char| 10 * sum + (c as int - '0' as int);
    let digits = decimal(n);
    assert(digit(n % 10) as int == '0' as int + n % 10);
    if n < 10 {
        assert(digits.drop_last() =~= Seq::<char>::empty());
        assert(digits.last() == digit(n));
        assert(digits.drop_last().fold_left(0int, read) == 0);
        assert(digits.fold_left(0int, read) == n);
    } else {
        let front = decimal(n / 10);
        decimal_reads_back(n / 10);
        assert(digits.drop_last() =~= front);
        assert(digits.last() == digit(n % 10));
        assert(digits.fold_left(0int, read) == 10 * (n / 10) + n % 10);
        assert(digits[0] == front[0]);
        assert forall|k: int| 0 <= k < digits.len() implies '0' <= #[trigger] digits[k] <= '9' by {
            if k < front.len() {
                assert(digits[k] == front[k]);
            }
        }
        if front.len() == 1 && front[0] == '0' {
            assert(front.drop_last() =~= Seq::<char>::empty());
            assert(front.drop_last().fold_left(0int, read) == 0);
            assert(front.last() == '0');
            assert(front.fold_left(0int, read) == 0);
        }
    }
}

/// The line on the paths shows their number: the digits between its words read back as it.
pub proof fn paths_loaded_shows_count(count: nat, paths_file: Seq<char>) -> (digits: Seq<char>)
    ensures
        paths_loaded_text(count, paths_file) == "loaded "@ + digits + " paths from "@ + paths_file,
        digits.len() > 0,
        digits.len() > 1 ==> digits[0] != '0',
        forall|k: int| 0 <= k < digits.len() ==> '0' <= #[trigger] digits[k] <= '9',
        digits.fold_left(0int, |sum: int, c: char| 10 * sum + (c as int - '0' as int)) == count,
{
    decimal_reads_back(count);
    decimal(count)
}

/// The line on the data files shows their number: the digits between its words read back
/// as it.
pub proof fn files_built_shows_count(count: nat, elapsed: Seq<char>) -> (digits: Seq<char>)
    ensures
        files_built_text(count, elapsed) == "built "@ + digits + " DataFile records in "@ + elapsed,
        digits.len() > 0,
        digits.len() > 1 ==> digits[0] != '0',
        forall|k: int| 0 <= k < digits.len() ==> '0' <= #[trigger] digits[k] <= '9',
        digits.fold_left(0int, |sum: int, c: char| 10 * sum + (c as int - '0' as int)) == count,
{
    decimal_reads_back(count);
    decimal(count)
}

/// A snapshot ID is shown with its sign and with digits that read back as it; a missing one
/// is shown as missing.
pub proof fn snapshot_shows_its_id(id: Option<i64>) -> (digits: Seq<char>)
    ensures
        id is None ==> snapshot_text(id) == "None"@,
        id matches Some(n) ==> {
            &&& snapshot_text(id) == (if n < 0 { "Some(-"@ } else { "Some("@ }) + digits + ")"@
            &&& digits.len() > 0
            &&& digits.len() > 1 ==> digits[0] != '0'
            &&& forall|k: int| 0 <= k < digits.len() ==> '0' <= #[trigger] digits[k] <= '9'
            &&& digits.fold_left(0int, |sum: int, c: char| 10 * sum + (c as int - '0' as int))
                == if n < 0 { -(n as int) } else { n as int }
        },
{
    match id {
        Some(n) => {
            let size: nat = if n < 0 { (-(n as int)) as nat } else { n as nat };
            decimal_reads_back(size);
            reveal_strlit("Some(");
            reveal_strlit("Some(-");
            assert("Some(-"@ =~= "Some("@ + seq!['-']);
            if n < 0 {
                assert(snapshot_text(id) =~= "Some(-"@ + decimal(size) + ")"@);
            }
            decimal(size)
        },
        None => Seq::empty(),
    }
}

/// The line on the table shows the table and its current snapshot, if it has one.
pub proof fn table_loaded_shows_snapshot(table: Seq<char>, snapshot: Option<i64>) -> (digits: Seq<
    char,
>)
    ensures
        snapshot is None ==> table_loaded_text(table, snapshot) == "loaded table "@ + table
            + ": current snapshot = "@ + "None"@,
        snapshot matches Some(n) ==> {
            &&& table_loaded_text(table, snapshot) == "loaded table "@ + table
                + ": current snapshot = "@ + (if n < 0 { "Some(-"@ } else { "Some("@ }) + digits
                + ")"@
            &&& digits.len() > 0
            &&& digits.len() > 1 ==> digits[0] != '0'
            &&& forall|k: int| 0 <= k < digits.len() ==> '0' <= #[trigger] digits[k] <= '9'
            &&& digits.fold_left(0int, |sum: int, c: char| 10 * sum + (c as int - '0' as int))
                == if n < 0 { -(n as int) } else { n as int }
        },
{
    let digits = snapshot_shows_its_id(snapshot);
    if let Some(n) = snapshot {
        let sign = if n < 0 { "Some(-"@ } else { "Some("@ };
        let front = "loaded table "@ + table + ": current snapshot = "@;
        assert(front + (sign + digits + ")"@) =~= front + sign + digits + ")"@);
    }
    digits
}

/// The line on the commit shows the snapshot that the table has then, if it has one.
pub proof fn committed_shows_snapshot(snapshot: Option<i64>, elapsed: Seq<char>) -> (digits: Seq<
    char,
>)
    ensures
        snapshot is None ==> committed_text(snapshot, elapsed) == "committed snapshot "@ + "None"@
            + " in "@ + elapsed,
        snapshot matches Some(n) ==> {
            &&& committed_text(snapshot, elapsed) == "committed snapshot "@
                + (if n < 0 { "Some(-"@ } else { "Some("@ }) + digits + ")"@ + " in "@ + elapsed
            &&& digits.len() > 0
            &&& digits.len() > 1 ==> digits[0] != '0'
            &&& forall|k: int| 0 <= k < digits.len() ==> '0' <= #[trigger] digits[k] <= '9'
            &&& digits.fold_left(0int, |sum: int, c: char| 10 * sum + (c as int - '0' as int))
                == if n < 0 { -(n as int) } else { n as int }
        },
{
    let digits = snapshot_shows_its_id(snapshot);
    if let Some(n) = snapshot {
        let sign = if n < 0 { "Some(-"@ } else { "Some("@ };
        let front = "committed snapshot "@;
        assert(front + (sign + digits + ")"@) =~= front + sign + digits + ")"@);
    }
    digits
}

/// Digits end at the first character that is none.
proof fn same_digits(a: Seq<char>, x: Seq<char>, b: Seq<char>, y: Seq<char>)
    requires
        forall|k: int| 0 <= k < a.len() ==> '0' <= #[trigger] a[k] <= '9',
        forall|k: int| 0 <= k < b.len() ==> '0' <= #[trigger] b[k] <= '9',
        x.len() > 0 && !('0' <= x[0] <= '9'),
        y.len() > 0 && !('0' <= y[0] <= '9'),
        a + x == b + y,
    ensures
        a == b,
        x == y,
{
    if a.len() < b.len() {
        assert((a + x)[a.len() as int] == x[0]);
        assert((b + y)[a.len() as int] == b[a.len() as int]);
    } else if b.len() < a.len() {
        assert((b + y)[b.len() as int] == y[0]);
        assert((a + x)[b.len() as int] == a[b.len() as int]);
    }
    assert(a =~= (a + x).take(a.len() as int));
    assert(b =~= (b + y).take(b.len() as int));
    assert(x =~= (a + x).skip(a.len() as int));
    assert(y =~= (b + y).skip(b.len() as int));
}

/// Different numbers of paths, or different files, are told apart by the line.
pub proof fn paths_loaded_tells_apart(a: nat, file_a: Seq<char>, b: nat, file_b: Seq<char>)
    requires
        paths_loaded_text(a, file_a) == paths_loaded_text(b, file_b),
    ensures
        a == b,
        file_a == file_b,
{
    let da = paths_loaded_shows_count(a, file_a);
    let db = paths_loaded_shows_count(b, file_b);
    let word = "loaded "@;
    let words = " paths from "@;
    reveal_strlit(" paths from ");
    assert(words[0] == ' ');
    let x = words + file_a;
    let y = words + file_b;
    assert(paths_loaded_text(a, file_a).skip(word.len() as int) =~= da + x);
    assert(paths_loaded_text(b, file_b).skip(word.len() as int) =~= db + y);
    same_digits(da, x, db, y);
    assert(file_a =~= x.skip(words.len() as int));
    assert(file_b =~= y.skip(words.len() as int));
}

/// Different numbers of data files, or different times, are told apart by the line.
pub proof fn files_built_tells_apart(a: nat, elapsed_a: Seq<char>, b: nat, elapsed_b: Seq<char>)
    requires
        files_built_text(a, elapsed_a) == files_built_text(b, elapsed_b),
    ensures
        a == b,
        elapsed_a == elapsed_b,
{
    let da = files_built_shows_count(a, elapsed_a);
    let db = files_built_shows_count(b, elapsed_b);
    let word = "built "@;
    let words = " DataFile records in "@;
    reveal_strlit(" DataFile records in ");
    assert(words[0] == ' ');
    let x = words + elapsed_a;
    let y = words + elapsed_b;
    assert(files_built_text(a, elapsed_a).skip(word.len() as int) =~= da + x);
    assert(files_built_text(b, elapsed_b).skip(word.len() as int) =~= db + y);
    same_digits(da, x, db, y);
    assert(elapsed_a =~= x.skip(words.len() as int));
    assert(elapsed_b =~= y.skip(words.len() as int));
}

/// Different snapshots are shown differently.
pub proof fn snapshots_are_told_apart(a: Option<i64>, b: Option<i64>)
    requires
        snapshot_text(a) == snapshot_text(b),
    ensures
        a == b,
{
    let da = snapshot_shows_its_id(a);
    let db = snapshot_shows_its_id(b);
    reveal_strlit("None");
    reveal_strlit("Some(");
    reveal_strlit("Some(-");
    reveal_strlit(")");
    assert("None"@[0] == 'N');
    assert("Some("@[0] == 'S' && "Some("@.len() == 5);
    assert("Some(-"@[0] == 'S' && "Some(-"@[5] == '-' && "Some(-"@.len() == 6);
    if a is Some {
        assert(snapshot_text(a)[0] == 'S');
    }
    if b is Some {
        assert(snapshot_text(b)[0] == 'S');
    }
    if a is Some && b is Some {
        let sa = if a->0 < 0 { "Some(-"@ } else { "Some("@ };
        let sb = if b->0 < 0 { "Some(-"@ } else { "Some("@ };
        assert(snapshot_text(a)[5] == if a->0 < 0 { '-' } else { da[0] });
        assert(snapshot_text(b)[5] == if b->0 < 0 { '-' } else { db[0] });
        assert('0' <= da[0] <= '9' && '0' <= db[0] <= '9');
        assert(snapshot_text(a).skip(sa.len() as int) =~= da + ")"@);
        assert(snapshot_text(b).skip(sb.len() as int) =~= db + ")"@);
        same_digits(da, ")"@, db, ")"@);
    }
}

} // verus!
