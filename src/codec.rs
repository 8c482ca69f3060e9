//! The long-poll wire format: the probe that lists every watched entry, and
//! the answer that names a changed one.
use vstd::prelude::*;

use crate::table::{has_id, EntryTable, EntryView};
use crate::text::{lemma_split_concat, lemma_split_no_sep, same_text, split, split_on, views};

verus! {

/// Separates the fields of a record.
pub const FIELD_SEP: char = '\u{2}';

/// Ends a record.
pub const RECORD_SEP: char = '\u{1}';

/// One probe record: id, group, fingerprint and namespace.
pub open spec fn probe_record(id: Seq<char>, group: Seq<char>, fp: Seq<char>, namespace: Seq<char>) -> Seq<char> {
    id.push(FIELD_SEP) + group.push(FIELD_SEP) + fp.push(FIELD_SEP) + namespace.push(RECORD_SEP)
}

/// The probe for a table: one record per entry, in the table's order.
pub open spec fn encode_spec(t: Seq<EntryView>, group: Seq<char>, namespace: Seq<char>) -> Seq<char>
    decreases t.len(),
{
    if t.len() == 0 {
        Seq::empty()
    } else {
        encode_spec(t.drop_last(), group, namespace) + probe_record(
            t.last().0,
            group,
            t.last().1,
            namespace,
        )
    }
}

/// Whether the fields of an answer record name a watched id of this group and
/// namespace.
pub open spec fn record_matches(t: Seq<EntryView>, fields: Seq<Seq<char>>, group: Seq<char>, namespace: Seq<char>) -> bool {
    &&& fields.len() == 3
    &&& has_id(t, fields[0])
    &&& fields[1] == group
    &&& fields[2] == namespace
}

/// The id of the first record that matches, if any.
pub open spec fn first_match(t: Seq<EntryView>, records: Seq<Seq<char>>, group: Seq<char>, namespace: Seq<char>) -> Option<Seq<char>>
    decreases records.len(),
{
    if records.len() == 0 {
        None
    } else {
        let fields = split(records[0], FIELD_SEP);
        if record_matches(t, fields, group, namespace) {
            Some(fields[0])
        } else {
            first_match(t, records.drop_first(), group, namespace)
        }
    }
}

/// The changed id that an answer names: none for an empty answer, else the
/// id of its first record that matches.
pub open spec fn decode_spec(t: Seq<EntryView>, message: Seq<char>, group: Seq<char>, namespace: Seq<char>) -> Option<Seq<char>> {
    if message.len() == 0 {
        None
    } else {
        first_match(t, split(message, RECORD_SEP), group, namespace)
    }
}

/// The record by which the server names a changed id.
pub open spec fn answer_record(id: Seq<char>, group: Seq<char>, namespace: Seq<char>) -> Seq<char> {
    id.push(FIELD_SEP) + group.push(FIELD_SEP) + namespace.push(RECORD_SEP)
}

/// The server's answer naming each of `ids` in turn.
pub open spec fn answer(ids: Seq<Seq<char>>, group: Seq<char>, namespace: Seq<char>) -> Seq<char>
    decreases ids.len(),
{
    if ids.len() == 0 {
        Seq::empty()
    } else {
        answer_record(ids[0], group, namespace) + answer(ids.drop_first(), group, namespace)
    }
}

/// Whether a text holds neither separator.
pub open spec fn is_plain(s: Seq<char>) -> bool {
    !s.contains(FIELD_SEP) && !s.contains(RECORD_SEP)
}

/// Writes the probe for `table`.
pub fn encode_entries(table: &EntryTable, group: &str, namespace: &str) -> (r: String)
    ensures
        r@ == encode_spec(table@, group@, namespace@),
{
    proof {
        reveal_strlit("\u{2}");
        reveal_strlit("\u{1}");
        assert("\u{2}"@ =~= seq![FIELD_SEP]);
        assert("\u{1}"@ =~= seq![RECORD_SEP]);
    }
    let mut message = String::new();
    let mut i: usize = 0;
    let n = table.len();
    while i < n
        invariant
            n == table@.len(),
            i <= n,
            message@ == encode_spec(table@.take(i as int), group@, namespace@),
            "\u{2}"@ == seq![FIELD_SEP],
            "\u{1}"@ == seq![RECORD_SEP],
        decreases n - i,
    {
        let (id, fp) = table.entry(i);
        let ghost before = message@;
        message.append(id);
        message.append("\u{2}");
        assert(message@ =~= before + id@.push(FIELD_SEP));
        message.append(group);
        message.append("\u{2}");
        assert(message@ =~= before + id@.push(FIELD_SEP) + group@.push(FIELD_SEP));
        message.append(fp);
        message.append("\u{2}");
        message.append(namespace);
        message.append("\u{1}");
        assert(message@ =~= before + id@.push(FIELD_SEP) + group@.push(FIELD_SEP) + fp@.push(FIELD_SEP) + namespace@.push(RECORD_SEP));
        proof {
            let t = table@.take(i as int + 1);
            assert(t.drop_last() =~= table@.take(i as int));
            assert(t.last() == table@[i as int]);
            assert(message@ =~= before + probe_record(t.last().0, group@, t.last().1, namespace@));
        }
        i = i + 1;
    }
    assert(table@.take(n as int) =~= table@);
    message
}

/// Reads the server's answer: the first record that names a watched id with
/// this group and namespace gives the changed id. Records of another shape,
/// of an unknown id, or of another group or namespace are passed over.
pub fn decode_entry(table: &EntryTable, message: &str, group: &str, namespace: &str) -> (r: Option<String>)
    ensures
        r matches Some(id) ==> decode_spec(table@, message@, group@, namespace@) == Some(id@),
        r is None ==> decode_spec(table@, message@, group@, namespace@) is None,
{
    if message.unicode_len() == 0 {
        return None;
    }
    let records = split_on(message, '\u{1}');
    let ghost rs = views(records@);
    let mut i: usize = 0;
    assert(rs.subrange(0, rs.len() as int) =~= rs);
    while i < records.len()
        invariant
            rs == views(records@),
            rs == split(message@, RECORD_SEP),
            message@.len() > 0,
            i <= rs.len(),
            first_match(table@, rs, group@, namespace@) == first_match(
                table@,
                rs.subrange(i as int, rs.len() as int),
                group@,
                namespace@,
            ),
        decreases rs.len() - i,
    {
        let fields = split_on(records[i].as_str(), '\u{2}');
        let ghost rest = rs.subrange(i as int, rs.len() as int);
        assert(rest[0] == records@[i as int]@);
        assert(rest.drop_first() =~= rs.subrange(i as int + 1, rs.len() as int));
        if fields.len() == 3 {
            let ghost fs = views(fields@);
            assert(fs[0] == fields@[0]@ && fs[1] == fields@[1]@ && fs[2] == fields@[2]@);
            match table.find(fields[0].as_str()) {
                Some(k) => {
                    assert(table@[k as int].0 == fs[0]);
                    if same_text(fields[1].as_str(), group) && same_text(fields[2].as_str(), namespace) {
                        assert(record_matches(table@, fs, group@, namespace@));
                        assert(first_match(table@, rest, group@, namespace@) == Some(fs[0]));
                        let id = fields[0].clone();
                        assert(id@ == fs[0]);
                        assert(decode_spec(table@, message@, group@, namespace@) == Some(fs[0]));
                        return Some(id);
                    }
                },
                None => {},
            }
        }
        i = i + 1;
    }
    None
}

proof fn lemma_no_char_concat(a: Seq<char>, b: Seq<char>, c: char)
    requires
        !a.contains(c),
        !b.contains(c),
    ensures
        !(a + b).contains(c),
{
    if (a + b).contains(c) {
        let k = choose|k: int| 0 <= k < (a + b).len() && (a + b)[k] == c;
        if k < a.len() {
            assert(a[k] == c);
        } else {
            assert(b[k - a.len()] == c);
        }
    }
}

proof fn lemma_split_record(r: Seq<char>, rest: Seq<char>)
    requires
        !r.contains(RECORD_SEP),
    ensures
        split(r.push(RECORD_SEP) + rest, RECORD_SEP) == seq![r] + split(rest, RECORD_SEP),
{
    lemma_split_concat(r, RECORD_SEP, rest);
    lemma_split_no_sep(r, RECORD_SEP);
}

/// An empty answer names no change, however often it is read.
pub proof fn lemma_decode_empty(t: Seq<EntryView>, group: Seq<char>, namespace: Seq<char>)
    ensures
        decode_spec(t, Seq::empty(), group, namespace) is None,
{
}

/// A record that does not match (wrong shape, unknown id, other group or
/// namespace) is passed over: the answer reads as what follows it.
pub proof fn lemma_decode_skips_record(
    t: Seq<EntryView>,
    record: Seq<char>,
    rest: Seq<char>,
    group: Seq<char>,
    namespace: Seq<char>,
)
    requires
        !record.contains(RECORD_SEP),
        !record_matches(t, split(record, FIELD_SEP), group, namespace),
    ensures
        decode_spec(t, record.push(RECORD_SEP) + rest, group, namespace) == decode_spec(
            t,
            rest,
            group,
            namespace,
        ),
{
    let m = record.push(RECORD_SEP) + rest;
    assert(m[record.len() as int] == RECORD_SEP);
    lemma_split_record(record, rest);
    let rs = seq![record] + split(rest, RECORD_SEP);
    assert(rs.drop_first() =~= split(rest, RECORD_SEP));
    if rest.len() == 0 {
        let e = Seq::<char>::empty();
        assert(split(e, RECORD_SEP) =~= seq![e]);
        assert(split(e, FIELD_SEP) =~= seq![e]);
        assert(seq![e].drop_first() =~= Seq::<Seq<char>>::empty());
        assert(!record_matches(t, split(e, FIELD_SEP), group, namespace));
        assert(seq![e][0] == e);
        assert(first_match(t, seq![e].drop_first(), group, namespace) is None);
        assert(first_match(t, seq![e], group, namespace) is None);
        assert(rs.drop_first() =~= seq![e]);
    }
    assert(first_match(t, rs, group, namespace) == first_match(t, rs.drop_first(), group, namespace));
}

/// When the server names changed ids that the table watches, with the
/// table's group and namespace, and no text holds a separator, the answer
/// reads as the first of those ids.
pub proof fn lemma_decode_answer(
    t: Seq<EntryView>,
    ids: Seq<Seq<char>>,
    group: Seq<char>,
    namespace: Seq<char>,
)
    requires
        ids.len() > 0,
        forall|i: int| 0 <= i < ids.len() ==> has_id(t, #[trigger] ids[i]) && is_plain(ids[i]),
        is_plain(group),
        is_plain(namespace),
    ensures
        decode_spec(t, answer(ids, group, namespace), group, namespace) == Some(ids[0]),
{
    let id = ids[0];
    assert(has_id(t, ids[0]) && is_plain(ids[0]));
    let rest = answer(ids.drop_first(), group, namespace);
    let a = id.push(FIELD_SEP) + (group.push(FIELD_SEP) + namespace);
    assert(answer(ids, group, namespace) =~= a.push(RECORD_SEP) + rest);
    assert(!seq![FIELD_SEP].contains(RECORD_SEP)) by {
        assert(seq![FIELD_SEP][0] != RECORD_SEP);
    }
    assert(id.push(FIELD_SEP) =~= id + seq![FIELD_SEP]);
    assert(group.push(FIELD_SEP) =~= group + seq![FIELD_SEP]);
    lemma_no_char_concat(id, seq![FIELD_SEP], RECORD_SEP);
    lemma_no_char_concat(group, seq![FIELD_SEP], RECORD_SEP);
    lemma_no_char_concat(group.push(FIELD_SEP), namespace, RECORD_SEP);
    lemma_no_char_concat(id.push(FIELD_SEP), group.push(FIELD_SEP) + namespace, RECORD_SEP);
    assert(answer(ids, group, namespace)[a.len() as int] == RECORD_SEP);
    lemma_split_record(a, rest);
    lemma_split_concat(id, FIELD_SEP, group.push(FIELD_SEP) + namespace);
    lemma_split_concat(group, FIELD_SEP, namespace);
    lemma_split_no_sep(id, FIELD_SEP);
    lemma_split_no_sep(group, FIELD_SEP);
    lemma_split_no_sep(namespace, FIELD_SEP);
    let fields = split(a, FIELD_SEP);
    assert(fields =~= seq![id, group, namespace]);
    let rs = seq![a] + split(rest, RECORD_SEP);
    assert(rs[0] == a);
}

} // verus!
