use vstd::prelude::*;
use crate::wizard_service::{
    StoreView, WizardView, has_id, id_of, ids_ascending, index_of, lemma_update_valid,
    with_image,
};

verus! {

/// Identifiers being ascending, the record with identifier `id` sits at the
/// one position that holds it.
pub proof fn lemma_index_unique(rows: Seq<WizardView>, id: i32, i: int)
    requires
        ids_ascending(rows),
        0 <= i < rows.len(),
        rows[i].id == Some(id),
    ensures
        has_id(rows, id),
        index_of(rows, id) == i,
{
    assert(has_id(rows, id));
    let k = index_of(rows, id);
    if k < i {
        assert(id_of(rows[k]) < id_of(rows[i]));
    } else if k > i {
        assert(id_of(rows[i]) < id_of(rows[k]));
    }
}

/// Creating a record and then looking up the identifier it was given yields
/// that record: the request's name, title and age, and no image.
pub proof fn lemma_create_then_get(s: StoreView, name: Seq<char>, title: Seq<char>, age: i32)
    requires
        s.valid(),
        s.next_id < i32::MAX,
    ensures
        s.created(name, title, age).valid(),
        s.created(name, title, age).row(s.next_id as i32) == Some(s.new_row(name, title, age)),
        s.created(name, title, age).row(s.next_id as i32)->Some_0.name == name,
        s.created(name, title, age).row(s.next_id as i32)->Some_0.title == title,
        s.created(name, title, age).row(s.next_id as i32)->Some_0.age == age,
{
    let c = s.created(name, title, age);
    let last = s.rows.len() as int;
    assert forall|a: int| 0 <= a < c.rows.len() implies (#[trigger] c.rows[a]).id is Some
        && id_of(c.rows[a]) < c.next_id by {
        if a < last {
            assert(c.rows[a] == s.rows[a]);
        }
    }
    assert forall|a: int, b: int| 0 <= a < b < c.rows.len() implies id_of(#[trigger] c.rows[a])
        < id_of(#[trigger] c.rows[b]) by {
        assert(c.rows[a] == s.rows[a]);
        if b < last {
            assert(c.rows[b] == s.rows[b]);
        } else {
            assert(id_of(s.rows[a]) < s.next_id);
        }
    }
    lemma_index_unique(c.rows, s.next_id as i32, last);
}

/// Removing the attachment of a record that has none changes nothing, so a
/// second removal succeeds too and again leaves the directory as it was; and
/// removing an attachment twice has the effect of removing it once.
pub proof fn lemma_remove_attachment_twice(s: StoreView, id: i32)
    requires
        s.valid(),
        s.row(id) is Some,
    ensures
        s.detached(id).valid(),
        s.detached(id).row(id) is Some,
        s.detached(id).row(id)->Some_0.image_name is None,
        s.detached(id).detached(id) == s.detached(id),
        s.row(id)->Some_0.image_name is None ==> s.detached(id) == s,
{
    let i = index_of(s.rows, id);
    let d = s.detached(id);
    lemma_update_valid(s, i, with_image(s.rows[i], None));
    lemma_index_unique(d.rows, id, i);
    assert(d.rows.update(i, with_image(d.rows[i], None)) =~= d.rows);
    assert(d.detached(id) =~= d);
    if s.row(id)->Some_0.image_name is None {
        assert(d.rows =~= s.rows);
        assert(d =~= s);
    }
}

/// Attaching a new image to a record whose image is stored as `previous`
/// leaves no file named `previous`, stores the new bytes under the new name,
/// and points the record at it; the new name differs from `previous`.
pub proof fn lemma_attach_replaces(
    s: StoreView,
    id: i32,
    previous: Seq<char>,
    stored: Seq<char>,
    bytes: Seq<u8>,
)
    requires
        s.valid(),
        s.row(id) is Some,
        s.row(id)->Some_0.image_name == Some(previous),
        stored != previous,
    ensures
        s.attached(id, stored, bytes).valid(),
        !s.attached(id, stored, bytes).files.contains_key(previous),
        s.attached(id, stored, bytes).files.contains_key(stored),
        s.attached(id, stored, bytes).files[stored] == bytes,
        s.attached(id, stored, bytes).row(id) is Some,
        s.attached(id, stored, bytes).row(id)->Some_0.image_name == Some(stored),
{
    let i = index_of(s.rows, id);
    let a = s.attached(id, stored, bytes);
    lemma_update_valid(s, i, with_image(s.rows[i], Some(stored)));
    lemma_index_unique(a.rows, id, i);
}

} // verus!
