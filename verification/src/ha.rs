//! High-availability snapshot restore and recovery import: SQL quoting of
//! names and paths taken from a snapshot, and the text of recovery records.

use vstd::prelude::*;
use crate::text::string_push;

verus! {

/// `s` with every `q` written twice, as SQL escapes a quote inside a quoted
/// name or string.
pub open spec fn doubled(s: Seq<char>, q: char) -> Seq<char>
    decreases s.len(),
{
    if s.len() == 0 {
        Seq::empty()
    } else {
        (if s[0] == q { seq![q, q] } else { seq![s[0]] }) + doubled(s.drop_first(), q)
    }
}

/// What SQL reads from the inside of a quoted name or string: a doubled
/// `q` stands for one `q`.
pub open spec fn undoubled(t: Seq<char>, q: char) -> Seq<char>
    decreases t.len(),
{
    if t.len() >= 2 && t[0] == q && t[1] == q {
        seq![q] + undoubled(t.subrange(2, t.len() as int), q)
    } else if t.len() >= 1 {
        seq![t[0]] + undoubled(t.drop_first(), q)
    } else {
        Seq::empty()
    }
}

/// `value` as a double-quoted SQLite identifier.
pub open spec fn quoted_identifier(value: Seq<char>) -> Seq<char> {
    seq!['"'] + doubled(value, '"') + seq!['"']
}

/// Appends `s` with every `q` doubled.
fn push_doubled(out: &mut String, s: &str, q: char)
    ensures
        final(out)@ == old(out)@ + doubled(s@, q),
{
    let n = s.unicode_len();
    let mut i: usize = 0;
    let ghost start = out@;
    proof {
        assert(s@.subrange(0, n as int) =~= s@);
    }
    while i < n
        invariant
            n == s@.len(),
            i <= n,
            out@ + doubled(s@.subrange(i as int, n as int), q) == start + doubled(s@, q),
        decreases n - i,
    {
        let c = s.get_char(i);
        proof {
            let rest = s@.subrange(i as int, n as int);
            assert(rest[0] == c);
            assert(rest.drop_first() =~= s@.subrange(i + 1, n as int));
        }
        string_push(out, c);
        if c == q {
            string_push(out, q);
        }
        proof {
            let rest = s@.subrange(i as int, n as int);
            let head = if c == q { seq![q, q] } else { seq![c] };
            assert(doubled(rest, q) == head + doubled(s@.subrange(i + 1, n as int), q));
            assert(out@ + doubled(s@.subrange(i + 1, n as int), q) =~= start + doubled(s@, q));
        }
        i = i + 1;
    }
    proof {
        assert(s@.subrange(n as int, n as int) =~= Seq::<char>::empty());
        assert(doubled(Seq::<char>::empty(), q) =~= Seq::<char>::empty());
        assert(out@ =~= start + doubled(s@, q));
    }
}

/// `value` as a double-quoted SQLite identifier, inner quotes doubled.
pub fn quote_sqlite_identifier(value: &str) -> (r: String)
    ensures
        r@ == quoted_identifier(value@),
{
    let mut out = String::new();
    string_push(&mut out, '"');
    push_doubled(&mut out, value, '"');
    string_push(&mut out, '"');
    proof {
        assert(out@ =~= quoted_identifier(value@));
    }
    out
}

/// `value` escaped for a single-quoted SQL string: every `'` doubled.
pub fn escape_sql_string_literal(value: &str) -> (r: String)
    ensures
        r@ == doubled(value@, '\''),
{
    let mut out = String::new();
    push_doubled(&mut out, value, '\'');
    proof {
        assert(out@ =~= doubled(value@, '\''));
    }
    out
}

/// The statement that attaches the snapshot at `snapshot_path` as
/// `ha_snapshot`.
pub fn ha_snapshot_attach_sql(snapshot_path: &str) -> (r: String)
    ensures
        r@ == "ATTACH DATABASE '"@ + doubled(snapshot_path@, '\'') + "' AS ha_snapshot"@,
{
    let mut out = String::from_str("ATTACH DATABASE '");
    push_doubled(&mut out, snapshot_path, '\'');
    out.append("' AS ha_snapshot");
    out
}

/// The two statements that replace the rows of `table` by the snapshot's:
/// a delete from the main table, then a copy from the snapshot.
pub fn ha_restore_table_sql(table: &str) -> (r: (String, String))
    ensures
        r.0@ == "DELETE FROM main."@ + quoted_identifier(table@),
        r.1@ == "INSERT INTO main."@ + quoted_identifier(table@) + " SELECT * FROM ha_snapshot."@
            + quoted_identifier(table@),
{
    let ident = quote_sqlite_identifier(table);
    let mut delete = String::from_str("DELETE FROM main.");
    delete.append(ident.as_str());
    let mut insert = String::from_str("INSERT INTO main.");
    insert.append(ident.as_str());
    insert.append(" SELECT * FROM ha_snapshot.");
    insert.append(ident.as_str());
    (delete, insert)
}

/// A recovery batch is claimed when its insert added a row.
pub fn ha_recovery_batch_claimed(rows_affected: u64) -> (r: bool)
    ensures
        r == (rows_affected > 0),
{
    rows_affected > 0
}

/// The message recorded for a recovery import: the one given, else
/// `recovery batch {batch} imported from {source}` with `manual` and
/// `unknown` standing in for a missing batch id and source node.
pub fn ha_recovery_import_message(
    batch_id: Option<String>,
    source_node_id: Option<String>,
    message: Option<String>,
) -> (r: String)
    ensures
        r@ == (match message {
            Some(m) => m@,
            None => "recovery batch "@ + (match batch_id { Some(b) => b@, None => "manual"@ })
                + " imported from "@ + (match source_node_id { Some(s) => s@, None => "unknown"@ }),
        }),
{
    let batch = match batch_id {
        Some(b) => b,
        None => String::from_str("manual"),
    };
    let source = match source_node_id {
        Some(s) => s,
        None => String::from_str("unknown"),
    };
    match message {
        Some(m) => m,
        None => {
            let mut out = String::from_str("recovery batch ");
            out.append(batch.as_str());
            out.append(" imported from ");
            out.append(source.as_str());
            out
        },
    }
}

/// Reading a doubled text back as SQL does gives the original text.
pub proof fn lemma_undoubled_doubled(s: Seq<char>, q: char)
    ensures
        undoubled(doubled(s, q), q) == s,
    decreases s.len(),
{
    if s.len() > 0 {
        lemma_undoubled_doubled(s.drop_first(), q);
        let rest = doubled(s.drop_first(), q);
        let t = doubled(s, q);
        if s[0] == q {
            assert(t =~= seq![q, q] + rest);
            assert(t.subrange(2, t.len() as int) =~= rest);
        } else {
            assert(t =~= seq![s[0]] + rest);
            assert(t.drop_first() =~= rest);
        }
        assert(seq![s[0]] + s.drop_first() =~= s);
    } else {
        assert(doubled(s, q) =~= Seq::<char>::empty());
        assert(s =~= Seq::<char>::empty());
    }
}

/// A quoted identifier names exactly the table it was made from: between
/// its outer quotes, SQLite reads the original name back.
pub proof fn lemma_quoted_identifier_round_trip(value: Seq<char>)
    ensures
        quoted_identifier(value)[0] == '"',
        quoted_identifier(value).last() == '"',
        undoubled(quoted_identifier(value).subrange(1, quoted_identifier(value).len() - 1), '"') == value,
{
    let d = doubled(value, '"');
    let t = quoted_identifier(value);
    assert(t.subrange(1, t.len() - 1) =~= d);
    lemma_undoubled_doubled(value, '"');
}

} // verus!
