//! Dotted table identifiers, such as `ns1.ns2.table_name`.

use vstd::prelude::*;

use crate::text::split;

verus! {

/// A table: the namespace that holds it, outermost level first, and its name.
#[derive(Debug, PartialEq, Eq)]
pub struct TableId {
    pub namespace: Vec<String>,
    pub name: String,
}

/// What a [`TableId`] stands for.
#[verifier::ext_equal]
pub struct TableIdView {
    pub namespace: Seq<Seq<char>>,
    pub name: Seq<char>,
}

impl View for TableId {
    type V = TableIdView;

    open spec fn view(&self) -> TableIdView {
        TableIdView { namespace: self.namespace.deep_view(), name: self.name@ }
    }
}

impl Clone for TableId {
    fn clone(&self) -> (t: Self)
        ensures
            t@ == self@,
            t.namespace.deep_view() == self.namespace.deep_view(),
            t.name@ == self.name@,
    {
        let namespace = self.namespace.clone();
        assert(namespace.deep_view() =~= self.namespace.deep_view());
        TableId { namespace, name: self.name.clone() }
    }
}

impl TableIdView {
    /// The identifier as it is written.
    pub open spec fn dotted(self) -> Seq<char> {
        crate::text::joined(self.namespace, '.').push('.') + self.name
    }

    /// Whether no part of the identifier holds a dot and the namespace has a level.
    pub open spec fn is_plain(self) -> bool {
        &&& self.namespace.len() > 0
        &&& forall|i: int|
            0 <= i < self.namespace.len() ==> !(#[trigger] self.namespace[i]).contains('.')
        &&& !self.name.contains('.')
    }
}

/// The identifier that the parts make, the last of them being the name. One part
/// alone leaves no namespace and makes none.
pub open spec fn table_of_parts(parts: Seq<Seq<char>>) -> Option<TableIdView> {
    if parts.len() < 2 {
        None
    } else {
        Some(TableIdView { namespace: parts.drop_last(), name: parts.last() })
    }
}

/// The identifier that `s` writes.
pub open spec fn table_of(s: Seq<char>) -> Option<TableIdView> {
    table_of_parts(crate::text::split_on(s, '.'))
}

/// The error type of the `iceberg` crate.
#[verifier::external_type_specification]
#[verifier::external_body]
pub struct ExIcebergError(iceberg::Error);

/// Why a table identifier was not accepted.
#[derive(Debug)]
pub enum TableIdError {
    /// There is no dot, so that the table is in no namespace. The error is that of
    /// the `iceberg` crate.
    NoNamespace(iceberg::Error),
}

impl TableIdError {
    /// What the error says of the argument at fault.
    pub fn message(&self) -> (m: String)
        ensures
            m@ == "invalid --table-id"@,
    {
        "invalid --table-id".to_string()
    }
}

/// Calls `iceberg::TableIdent::from_strs`, which takes the last part for the name
/// of the table and the parts before it for its namespace, unchanged, and fails
/// where that leaves no namespace. What the error says is not claimed: the type is
/// opaque here.
#[verifier::external_body]
fn table_ident_from_strs(parts: Vec<String>) -> (r: Result<TableId, iceberg::Error>)
    ensures
        match r {
            Ok(t) => table_of_parts(parts.deep_view()) == Some(t@),
            Err(_) => table_of_parts(parts.deep_view()) is None,
        },
{
    let ident = iceberg::TableIdent::from_strs(parts)?;
    Ok(TableId { namespace: ident.namespace.inner(), name: ident.name })
}

/// Reads a dotted table identifier: the name behind the last dot, the levels of
/// the namespace before it.
pub fn parse_table_id(s: &str) -> (r: Result<TableId, TableIdError>)
    ensures
        match r {
            Ok(t) => table_of(s@) == Some(t@),
            Err(_) => table_of(s@) is None,
        },
        r is Ok <==> s@.contains('.'),
        r matches Ok(t) ==> {
            &&& t.namespace@.len() > 0
            &&& forall|i: int|
                0 <= i < t.namespace@.len() ==> !(#[trigger] t.namespace@[i])@.contains('.')
            &&& !t.name@.contains('.')
            &&& t.namespace.deep_view().map_values(|level: Seq<char>| level.push('.')).flatten()
                + t.name@ == s@
        },
{
    proof {
        crate::text::split_len(s@, '.');
        if table_of(s@) is Some {
            let read = table_of(s@)->0;
            read_is_plain(s@);
            name_is_behind_last_dot(s@);
            assert forall|t: TableId| #[trigger] t@ == read implies forall|i: int|
                0 <= i < t.namespace@.len() ==> !(#[trigger] t.namespace@[i])@.contains('.') by {
                assert forall|i: int| 0 <= i < t.namespace@.len() implies !(
                #[trigger] t.namespace@[i])@.contains('.') by {
                    assert(read.namespace[i] == t.namespace@[i]@);
                }
            }
        }
    }
    match table_ident_from_strs(split(s, '.')) {
        Ok(t) => Ok(t),
        Err(source) => Err(TableIdError::NoNamespace(source)),
    }
}

impl TableId {
    /// Writes the identifier with dots.
    pub fn dotted(&self) -> (s: String)
        ensures
            s@ == self@.dotted(),
            self.namespace@.len() > 0 ==> s@ == self.namespace.deep_view().map_values(
                |level: Seq<char>| level.push('.'),
            ).flatten() + self.name@,
            self.namespace@.len() == 0 ==> s@ == seq!['.'] + self.name@,
    {
        let mut s = String::new();
        let levels: usize = self.namespace.len();
        let ghost namespace = self@.namespace;
        assert(namespace.take(0) =~= Seq::<Seq<char>>::empty());
        for i in 0..levels
            invariant
                levels == self.namespace.len(),
                namespace == self@.namespace,
                s@ =~= crate::text::joined(namespace.take(i as int), '.'),
        {
            proof {
                assert(namespace.take(i + 1).drop_last() =~= namespace.take(i as int));
                assert(namespace.take(i + 1).last() == self.namespace[i as int]@);
            }
            if i > 0 {
                s.push('.');
            }
            s.append(self.namespace[i].as_str());
        }
        assert(namespace.take(levels as int) =~= namespace);
        s.push('.');
        s.append(self.name.as_str());
        proof {
            crate::text::joined_is_pieces_in_order(self@.namespace, '.');
            if levels == 0 {
                assert(s@ =~= seq!['.'] + self.name@);
            }
        }
        s
    }
}

/// An identifier that was read is written again as it was read.
pub proof fn written_as_read(s: Seq<char>)
    requires
        table_of(s) is Some,
    ensures
        table_of(s)->0.dotted() == s,
{
    crate::text::joined_split(s, '.');
}

/// An identifier without dots in its parts is read again as it was written.
pub proof fn read_as_written(t: TableIdView)
    requires
        t.is_plain(),
    ensures
        table_of(t.dotted()) == Some(t),
{
    let parts = t.namespace.push(t.name);
    assert(parts.drop_last() =~= t.namespace);
    assert(crate::text::joined(parts, '.') == t.dotted());
    assert forall|i: int| 0 <= i < parts.len() implies !(#[trigger] parts[i]).contains('.') by {
        if i < t.namespace.len() {
            assert(parts[i] == t.namespace[i]);
        }
    }
    crate::text::split_joined(parts, '.');
}

/// Whatever is read has a namespace, and no dot in any of its parts.
pub proof fn read_is_plain(s: Seq<char>)
    requires
        table_of(s) is Some,
    ensures
        table_of(s)->0.is_plain(),
{
    let parts = crate::text::split_on(s, '.');
    let t = table_of(s)->0;
    crate::text::split_pieces_lack_separator(s, '.');
    assert forall|i: int| 0 <= i < t.namespace.len() implies !(#[trigger] t.namespace[i]).contains(
        '.',
    ) by {
        assert(t.namespace[i] == parts[i]);
    }
}

/// The name that is read is the text behind the last dot, and the levels of the
/// namespace, each with its dot, are the text up to that dot.
pub proof fn name_is_behind_last_dot(s: Seq<char>) -> (dot: int)
    requires
        s.contains('.'),
    ensures
        0 <= dot < s.len(),
        s[dot] == '.',
        forall|k: int| dot < k < s.len() ==> #[trigger] s[k] != '.',
        table_of(s) is Some,
        table_of(s)->0.name == s.skip(dot + 1),
        table_of(s)->0.namespace.map_values(|level: Seq<char>| level.push('.')).flatten() == s.take(
            dot + 1,
        ),
        crate::text::joined(table_of(s)->0.namespace, '.') == s.take(dot),
        table_of(s)->0.namespace.len() > 0,
        table_of(s)->0.namespace[0].is_prefix_of(s),
        forall|i: int|
            0 <= i < table_of(s)->0.namespace.len() ==> !(
            #[trigger] table_of(s)->0.namespace[i]).contains('.'),
{
    let ended = |level: Seq<char>| level.push('.');
    let parts = crate::text::split_on(s, '.');
    crate::text::split_len(s, '.');
    read_is_plain(s);
    let t = table_of(s)->0;
    let front = t.namespace.map_values(ended).flatten();
    crate::text::split_pieces_make_the_text(s, '.');
    assert(parts.map_values(ended) =~= t.namespace.map_values(ended).push(t.name.push('.')));
    t.namespace.map_values(ended).lemma_flatten_push(t.name.push('.'));
    assert(front + t.name.push('.') == s.push('.'));
    crate::text::joined_is_pieces_in_order(t.namespace, '.');
    let dot = front.len() - 1;
    assert(crate::text::joined(t.namespace, '.').push('.') == front);
    assert((front + t.name.push('.')).drop_last() =~= front + t.name);
    assert(s.push('.').drop_last() =~= s);
    assert(s =~= front + t.name);
    assert(t.name =~= s.skip(dot + 1));
    assert(front =~= s.take(dot + 1));
    assert(crate::text::joined(t.namespace, '.') =~= s.take(dot));
    assert forall|k: int| dot < k < s.len() implies #[trigger] s[k] != '.' by {
        assert(t.name[k - dot - 1] == s[k]);
    }
    let first = t.namespace[0].push('.');
    assert(front == first + t.namespace.map_values(ended).drop_first().flatten());
    assert forall|k: int| 0 <= k < t.namespace[0].len() implies t.namespace[0][k] == s[k] by {
        assert(front[k] == first[k]);
    }
    assert(t.namespace[0] =~= s.subrange(0, t.namespace[0].len() as int));
    dot
}

/// A text without a dot names no table.
pub proof fn no_dot_no_table(s: Seq<char>)
    requires
        !s.contains('.'),
    ensures
        table_of(s) is None,
{
    crate::text::split_len(s, '.');
}

/// An identifier is written as the levels of its namespace in order, each with a dot
/// behind it, and then its name.
pub proof fn dotted_is_levels_and_name(t: TableIdView)
    requires
        t.namespace.len() > 0,
    ensures
        t.dotted() == t.namespace.map_values(|level: Seq<char>| level.push('.')).flatten() + t.name,
        t.namespace[0].push('.').is_prefix_of(t.dotted()),
        (seq!['.'] + t.name).is_suffix_of(t.dotted()),
{
    let ended = |level: Seq<char>| level.push('.');
    let levels = t.namespace.map_values(ended);
    crate::text::joined_is_pieces_in_order(t.namespace, '.');
    let first = t.namespace[0].push('.');
    assert(levels.flatten() == first + levels.drop_first().flatten());
    assert(first =~= t.dotted().subrange(0, first.len() as int));
    let end = seq!['.'] + t.name;
    assert(end =~= t.dotted().subrange(t.dotted().len() - end.len(), t.dotted().len() as int));
}

/// The last of two or more parts is the name, and the parts before it are the
/// namespace, in order; fewer parts make no identifier.
pub proof fn parts_make_namespace_and_name(parts: Seq<Seq<char>>)
    ensures
        table_of_parts(parts) is Some <==> parts.len() >= 2,
        table_of_parts(parts) matches Some(t) ==> t.namespace.push(t.name) == parts,
{
    if parts.len() >= 2 {
        assert(parts.drop_last().push(parts.last()) =~= parts);
    }
}

/// A table stands for the namespace and the name that it holds.
pub proof fn table_stands_for_its_parts(t: TableId)
    ensures
        t@.name == t.name@,
        t@.namespace.len() == t.namespace@.len(),
        forall|i: int| 0 <= i < t.namespace@.len() ==> t@.namespace[i] == (
        #[trigger] t.namespace@[i])@,
{
}

} // verus!
