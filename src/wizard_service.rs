use vstd::prelude::*;
use crate::directory::AttachmentDir;
use crate::image_name::{chosen_extension, image_file_name, stored_name};
use crate::wizard_api::CreateWizardRequest;

verus! {

/// Why an operation failed.
#[derive(Debug)]
pub enum WizardError {
    /// No record has the given identifier.
    NotFoundError,
    /// The input was malformed before it reached the store.
    BadRequest,
    /// Writing or deleting an attached file failed.
    StorageIoError(String),
    /// The database failed.
    PersistenceError(String),
}

impl WizardError {
    /// A description of the failure: fixed for `NotFoundError` and
    /// `BadRequest`, the underlying message otherwise.
    pub fn message(&self) -> (r: String)
        ensures
            match self {
                WizardError::NotFoundError => r@ == "Row not found!"@,
                WizardError::BadRequest => r@ == "Bad Request"@,
                WizardError::StorageIoError(m) => r == m,
                WizardError::PersistenceError(m) => r == m,
            },
    {
        match self {
            WizardError::NotFoundError => String::from_str("Row not found!"),
            WizardError::BadRequest => String::from_str("Bad Request"),
            WizardError::StorageIoError(m) => m.clone(),
            WizardError::PersistenceError(m) => m.clone(),
        }
    }
}

/// A stored wizard record.
#[derive(Debug)]
pub struct Wizard {
    /// Assigned by the store on creation.
    pub id: Option<i32>,
    pub name: String,
    pub title: String,
    pub age: i32,
    /// The name of the attached image file, if any.
    pub image_name: Option<String>,
}

/// A wizard record as mathematical values.
pub struct WizardView {
    pub id: Option<i32>,
    pub name: Seq<char>,
    pub title: Seq<char>,
    pub age: i32,
    pub image_name: Option<Seq<char>>,
}

/// The characters of an optional string.
pub open spec fn text_of(o: Option<String>) -> Option<Seq<char>> {
    match o {
        Some(s) => Some(s@),
        None => None,
    }
}

impl View for Wizard {
    type V = WizardView;

    open spec fn view(&self) -> WizardView {
        WizardView {
            id: self.id,
            name: self.name@,
            title: self.title@,
            age: self.age,
            image_name: text_of(self.image_name),
        }
    }
}

fn copy_text(o: &Option<String>) -> (r: Option<String>)
    ensures
        r == *o,
{
    match o {
        Some(s) => Some(s.clone()),
        None => None,
    }
}

impl Wizard {
    /// A copy of this record.
    pub fn duplicate(&self) -> (r: Wizard)
        ensures
            r == *self,
    {
        Wizard {
            id: self.id,
            name: self.name.clone(),
            title: self.title.clone(),
            age: self.age,
            image_name: copy_text(&self.image_name),
        }
    }
}

/// An uploaded image: the client's file name, if it gave one, and the bytes.
pub struct ImageUpload {
    pub file_name: Option<String>,
    pub bytes: Vec<u8>,
}

/// The existence gate: mutation by identifier proceeds only where the record
/// exists.
pub fn gate(exists: bool) -> (r: Result<(), WizardError>)
    ensures
        exists ==> r is Ok,
        !exists ==> r matches Err(WizardError::NotFoundError),
{
    if exists {
        Ok(())
    } else {
        Err(WizardError::NotFoundError)
    }
}

/// The outcome of a lookup by identifier: the record, or `NotFoundError`.
pub fn found(row: Option<Wizard>) -> (r: Result<Wizard, WizardError>)
    ensures
        match row {
            Some(w) => r == Ok::<Wizard, WizardError>(w),
            None => r matches Err(WizardError::NotFoundError),
        },
{
    match row {
        Some(w) => Ok(w),
        None => Err(WizardError::NotFoundError),
    }
}

/// The identifier of a stored record.
pub open spec fn id_of(w: WizardView) -> int {
    match w.id {
        Some(i) => i as int,
        None => 0,
    }
}

/// Some record has identifier `id`.
pub open spec fn has_id(rows: Seq<WizardView>, id: i32) -> bool {
    exists|i: int| 0 <= i < rows.len() && rows[i].id == Some(id)
}

/// The position of the record with identifier `id`.
pub open spec fn index_of(rows: Seq<WizardView>, id: i32) -> int {
    choose|i: int| 0 <= i < rows.len() && rows[i].id == Some(id)
}

/// Every record has an identifier, and identifiers strictly increase.
pub open spec fn ids_ascending(rows: Seq<WizardView>) -> bool {
    &&& forall|i: int| 0 <= i < rows.len() ==> (#[trigger] rows[i]).id is Some
    &&& forall|i: int, j: int|
        0 <= i < j < rows.len() ==> id_of(#[trigger] rows[i]) < id_of(#[trigger] rows[j])
}

/// `w` with new name, title and age.
pub open spec fn with_fields(w: WizardView, name: Seq<char>, title: Seq<char>, age: i32) -> WizardView {
    WizardView { id: w.id, name, title, age, image_name: w.image_name }
}

/// `w` with a new image reference.
pub open spec fn with_image(w: WizardView, image_name: Option<Seq<char>>) -> WizardView {
    WizardView { id: w.id, name: w.name, title: w.title, age: w.age, image_name }
}

/// The store as mathematical values: the records in table order, the next
/// identifier to hand out, and the attachment directory.
pub struct StoreView {
    pub rows: Seq<WizardView>,
    pub next_id: int,
    pub files: Map<Seq<char>, Seq<u8>>,
}

impl StoreView {
    /// Identifiers are ascending and below the next one to hand out, which is
    /// at least 1.
    pub open spec fn valid(self) -> bool {
        &&& 1 <= self.next_id <= i32::MAX
        &&& ids_ascending(self.rows)
        &&& forall|i: int| 0 <= i < self.rows.len() ==> id_of(#[trigger] self.rows[i]) < self.next_id
    }

    /// The record with identifier `id`, if any.
    pub open spec fn row(self, id: i32) -> Option<WizardView> {
        if has_id(self.rows, id) {
            Some(self.rows[index_of(self.rows, id)])
        } else {
            None
        }
    }

    /// The record that `create` adds.
    pub open spec fn new_row(self, name: Seq<char>, title: Seq<char>, age: i32) -> WizardView {
        WizardView { id: Some(self.next_id as i32), name, title, age, image_name: None }
    }

    /// After `create`.
    pub open spec fn created(self, name: Seq<char>, title: Seq<char>, age: i32) -> StoreView {
        StoreView {
            rows: self.rows.push(self.new_row(name, title, age)),
            next_id: self.next_id + 1,
            files: self.files,
        }
    }

    /// After `update_by_id` on an existing record.
    pub open spec fn updated(self, id: i32, name: Seq<char>, title: Seq<char>, age: i32) -> StoreView {
        let i = index_of(self.rows, id);
        StoreView {
            rows: self.rows.update(i, with_fields(self.rows[i], name, title, age)),
            next_id: self.next_id,
            files: self.files,
        }
    }

    /// The directory once the image of record `id`, if it has one, is gone.
    pub open spec fn files_without_image(self, id: i32) -> Map<Seq<char>, Seq<u8>> {
        match self.rows[index_of(self.rows, id)].image_name {
            Some(f) => self.files.remove(f),
            None => self.files,
        }
    }

    /// After `delete_by_id` on an existing record.
    pub open spec fn deleted(self, id: i32) -> StoreView {
        StoreView {
            rows: self.rows.remove(index_of(self.rows, id)),
            next_id: self.next_id,
            files: self.files_without_image(id),
        }
    }

    /// After `remove_attachment` on an existing record.
    pub open spec fn detached(self, id: i32) -> StoreView {
        let i = index_of(self.rows, id);
        StoreView {
            rows: self.rows.update(i, with_image(self.rows[i], None)),
            next_id: self.next_id,
            files: self.files_without_image(id),
        }
    }

    /// After `save_image` on an existing record, storing `bytes` as `stored`.
    pub open spec fn attached(self, id: i32, stored: Seq<char>, bytes: Seq<u8>) -> StoreView {
        let i = index_of(self.rows, id);
        StoreView {
            rows: self.rows.update(i, with_image(self.rows[i], Some(stored))),
            next_id: self.next_id,
            files: self.files_without_image(id).insert(stored, bytes),
        }
    }
}

/// The wizard table, held in memory, together with the directory of attached
/// images; the operations below act on it.
pub struct WizardStore {
    rows: Vec<Wizard>,
    next_id: i32,
    dir: AttachmentDir,
}

impl View for WizardStore {
    type V = StoreView;

    closed spec fn view(&self) -> StoreView {
        StoreView {
            rows: self.rows@.map_values(|w: Wizard| w@),
            next_id: self.next_id as int,
            files: self.dir@,
        }
    }
}

impl WizardStore {
    /// The store's invariant.
    pub closed spec fn wf(&self) -> bool {
        self.dir.wf() && self@.valid()
    }

    /// An empty store whose first record gets identifier 1.
    pub fn new() -> (r: Self)
        ensures
            r.wf(),
            r@.rows.len() == 0,
            r@.next_id == 1,
            r@.files == Map::<Seq<char>, Seq<u8>>::empty(),
    {
        let r = WizardStore { rows: Vec::new(), next_id: 1, dir: AttachmentDir::new() };
        assert(r@.rows =~= Seq::<WizardView>::empty());
        r
    }

    /// Whether an image file of that name is stored.
    pub fn has_file(&self, name: &String) -> (r: bool)
        requires
            self.wf(),
        ensures
            r == self@.files.contains_key(name@),
    {
        self.dir.contains(name)
    }

    /// The bytes of the stored image file of that name, if any.
    pub fn file_bytes(&self, name: &String) -> (r: Option<&Vec<u8>>)
        requires
            self.wf(),
        ensures
            match r {
                Some(b) => self@.files.contains_key(name@) && b@ == self@.files[name@],
                None => !self@.files.contains_key(name@),
            },
    {
        self.dir.read(name)
    }

    fn position(&self, id: i32) -> (r: Option<usize>)
        requires
            self.wf(),
        ensures
            match r {
                Some(i) => i < self@.rows.len() && self@.rows[i as int].id == Some(id)
                    && i == index_of(self@.rows, id) && has_id(self@.rows, id),
                None => !has_id(self@.rows, id),
            },
    {
        let mut i: usize = 0;
        while i < self.rows.len()
            invariant
                self.wf(),
                i <= self.rows@.len(),
                forall|j: int| 0 <= j < i ==> self@.rows[j].id != Some(id),
            decreases self.rows@.len() - i,
        {
            if self.rows[i].id == Some(id) {
                proof {
                    let rows = self@.rows;
                    assert(rows[i as int].id == Some(id));
                    let k = index_of(rows, id);
                    if k != i as int {
                        if k < i as int {
                            assert(id_of(rows[k]) < id_of(rows[i as int]));
                        } else {
                            assert(id_of(rows[i as int]) < id_of(rows[k]));
                        }
                    }
                }
                return Some(i);
            }
            i = i + 1;
        }
        None
    }
}

/// Whether a record with identifier `id` exists: a point-in-time probe.
pub fn check(id: i32, conn: &WizardStore) -> (r: bool)
    requires
        conn.wf(),
    ensures
        r == has_id(conn@.rows, id),
{
    conn.position(id).is_some()
}

/// Inserts a new record with the request's fields, the next identifier and no
/// image, and returns it. Fails with `PersistenceError` once the identifiers
/// are exhausted.
pub fn create(request: CreateWizardRequest, conn: &mut WizardStore) -> (r: Result<Wizard, WizardError>)
    requires
        old(conn).wf(),
    ensures
        final(conn).wf(),
        match r {
            Ok(w) => {
                &&& old(conn)@.next_id < i32::MAX
                &&& w@ == old(conn)@.new_row(request.name@, request.title@, request.age)
                &&& !has_id(old(conn)@.rows, w.id->Some_0)
                &&& w.image_name is None
                &&& final(conn)@ == old(conn)@.created(request.name@, request.title@, request.age)
            },
            Err(e) => {
                &&& old(conn)@.next_id == i32::MAX
                &&& e is PersistenceError
                &&& final(conn)@ == old(conn)@
            },
        },
{
    if conn.next_id == i32::MAX {
        return Err(WizardError::PersistenceError(
            String::from_str("nextval: reached maximum value of sequence"),
        ));
    }
    let ghost before = conn@;
    let w = Wizard {
        id: Some(conn.next_id),
        name: request.name,
        title: request.title,
        age: request.age,
        image_name: None,
    };
    let out = w.duplicate();
    conn.rows.push(w);
    conn.next_id = conn.next_id + 1;
    proof {
        assert(conn@.rows =~= before.rows.push(out@));
        assert(conn@ == before.created(out@.name, out@.title, out@.age));
        if has_id(before.rows, out.id->Some_0) {
            let k = choose|k: int| 0 <= k < before.rows.len() && before.rows[k].id == out.id;
            assert(id_of(before.rows[k]) < before.next_id);
        }
    }
    Ok(out)
}

/// All records, ordered by identifier ascending.
pub fn get_all(conn: &WizardStore) -> (r: Vec<Wizard>)
    requires
        conn.wf(),
    ensures
        r@.map_values(|w: Wizard| w@) == conn@.rows,
        forall|i: int, j: int|
            0 <= i < j < r@.len() ==> id_of((#[trigger] r@[i])@) < id_of((#[trigger] r@[j])@),
{
    let mut r: Vec<Wizard> = Vec::new();
    let mut i: usize = 0;
    while i < conn.rows.len()
        invariant
            conn.wf(),
            i <= conn.rows@.len(),
            r@.len() == i,
            forall|j: int| 0 <= j < i ==> r@[j] == conn.rows@[j],
        decreases conn.rows@.len() - i,
    {
        r.push(conn.rows[i].duplicate());
        i = i + 1;
    }
    proof {
        assert(r@ =~= conn.rows@);
        assert(r@.map_values(|w: Wizard| w@) =~= conn@.rows);
        assert forall|a: int, b: int|
            0 <= a < b < r@.len() implies id_of((#[trigger] r@[a])@) < id_of((#[trigger] r@[b])@) by {
            assert(r@[a]@ == conn@.rows[a] && r@[b]@ == conn@.rows[b]);
        }
    }
    r
}

/// The record with identifier `id`, or `NotFoundError`.
pub fn get_by_id(id: i32, conn: &WizardStore) -> (r: Result<Wizard, WizardError>)
    requires
        conn.wf(),
    ensures
        match conn@.row(id) {
            Some(v) => r matches Ok(w) && w@ == v,
            None => r matches Err(WizardError::NotFoundError),
        },
{
    let row = match conn.position(id) {
        Some(i) => Some(conn.rows[i].duplicate()),
        None => None,
    };
    found(row)
}

/// Changing a record's fields other than its identifier keeps the store valid.
pub proof fn lemma_update_valid(s: StoreView, i: int, w: WizardView)
    requires
        s.valid(),
        0 <= i < s.rows.len(),
        w.id == s.rows[i].id,
    ensures
        (StoreView { rows: s.rows.update(i, w), next_id: s.next_id, files: s.files }).valid(),
{
    let rows = s.rows.update(i, w);
    assert forall|a: int| 0 <= a < rows.len() implies id_of(#[trigger] rows[a]) == id_of(s.rows[a]) && rows[a].id is Some by {
        assert(s.rows[a].id is Some);
    }
    assert forall|a: int, b: int| 0 <= a < b < rows.len() implies id_of(#[trigger] rows[a]) < id_of(#[trigger] rows[b]) by {
        assert(id_of(s.rows[a]) < id_of(s.rows[b]));
    }
    assert forall|a: int| 0 <= a < rows.len() implies id_of(#[trigger] rows[a]) < s.next_id by {
        assert(id_of(s.rows[a]) < s.next_id);
    }
}

proof fn lemma_remove_valid(s: StoreView, i: int, files: Map<Seq<char>, Seq<u8>>)
    requires
        s.valid(),
        0 <= i < s.rows.len(),
    ensures
        (StoreView { rows: s.rows.remove(i), next_id: s.next_id, files }).valid(),
{
    let rows = s.rows.remove(i);
    assert forall|a: int| 0 <= a < rows.len() implies (#[trigger] rows[a]).id is Some
        && id_of(rows[a]) < s.next_id by {
        let a0 = if a < i { a } else { a + 1 };
        assert(rows[a] == s.rows[a0]);
    }
    assert forall|a: int, b: int| 0 <= a < b < rows.len() implies id_of(#[trigger] rows[a]) < id_of(#[trigger] rows[b]) by {
        let a0 = if a < i { a } else { a + 1 };
        let b0 = if b < i { b } else { b + 1 };
        assert(rows[a] == s.rows[a0] && rows[b] == s.rows[b0]);
        assert(id_of(s.rows[a0]) < id_of(s.rows[b0]));
    }
}

/// Overwrites the name, title and age of the record with identifier `id` and
/// returns it; its image reference is kept. Fails with `NotFoundError`, and
/// changes nothing, where no record has that identifier.
pub fn update_by_id(id: i32, request: CreateWizardRequest, conn: &mut WizardStore) -> (r: Result<Wizard, WizardError>)
    requires
        old(conn).wf(),
    ensures
        final(conn).wf(),
        match old(conn)@.row(id) {
            Some(v) => {
                &&& r matches Ok(w) && w@ == with_fields(v, request.name@, request.title@, request.age)
                &&& final(conn)@ == old(conn)@.updated(id, request.name@, request.title@, request.age)
            },
            None => r matches Err(WizardError::NotFoundError) && final(conn)@ == old(conn)@,
        },
{
    let pos = conn.position(id);
    match gate(pos.is_some()) {
        Err(e) => Err(e),
        Ok(()) => match pos {
            None => Err(WizardError::NotFoundError),
            Some(i) => {
                let ghost before = conn@;
                let w = Wizard {
                    id: Some(id),
                    name: request.name,
                    title: request.title,
                    age: request.age,
                    image_name: copy_text(&conn.rows[i].image_name),
                };
                let out = w.duplicate();
                conn.rows.set(i, w);
                proof {
                    let nv = with_fields(before.rows[i as int], out@.name, out@.title, out@.age);
                    assert(conn@.rows =~= before.rows.update(i as int, nv));
                    lemma_update_valid(before, i as int, nv);
                }
                Ok(out)
            },
        },
    }
}

/// Deletes the image file of record `id`, if it has one and the file is
/// there, and removes the record. Fails with `NotFoundError`, and changes
/// nothing, where no record has that identifier.
pub fn delete_by_id(id: i32, conn: &mut WizardStore) -> (r: Result<(), WizardError>)
    requires
        old(conn).wf(),
    ensures
        final(conn).wf(),
        match old(conn)@.row(id) {
            Some(_) => r is Ok && final(conn)@ == old(conn)@.deleted(id),
            None => r matches Err(WizardError::NotFoundError) && final(conn)@ == old(conn)@,
        },
{
    let pos = conn.position(id);
    match gate(pos.is_some()) {
        Err(e) => Err(e),
        Ok(()) => match pos {
            None => Err(WizardError::NotFoundError),
            Some(i) => {
                let ghost before = conn@;
                let w = conn.rows.remove(i);
                match &w.image_name {
                    Some(f) => {
                        conn.dir.remove(f);
                    },
                    None => {},
                }
                proof {
                    assert(conn@.rows =~= before.rows.remove(i as int));
                    lemma_remove_valid(before, i as int, conn@.files);
                }
                Ok(())
            },
        },
    }
}

/// Deletes the image file of record `id`, if it has one (a missing file is
/// no error), and clears its image reference. Fails with `NotFoundError`, and
/// changes nothing, where no record has that identifier.
pub fn remove_attachment(id: i32, conn: &mut WizardStore) -> (r: Result<(), WizardError>)
    requires
        old(conn).wf(),
    ensures
        final(conn).wf(),
        match old(conn)@.row(id) {
            Some(_) => r is Ok && final(conn)@ == old(conn)@.detached(id),
            None => r matches Err(WizardError::NotFoundError) && final(conn)@ == old(conn)@,
        },
{
    let pos = conn.position(id);
    match gate(pos.is_some()) {
        Err(e) => Err(e),
        Ok(()) => match pos {
            None => Err(WizardError::NotFoundError),
            Some(i) => {
                let ghost before = conn@;
                let prev = copy_text(&conn.rows[i].image_name);
                match &prev {
                    Some(f) => {
                        conn.dir.remove(f);
                    },
                    None => {},
                }
                let w = Wizard {
                    id: Some(id),
                    name: conn.rows[i].name.clone(),
                    title: conn.rows[i].title.clone(),
                    age: conn.rows[i].age,
                    image_name: None,
                };
                conn.rows.set(i, w);
                proof {
                    let nv = with_image(before.rows[i as int], None);
                    assert(conn@.rows =~= before.rows.update(i as int, nv));
                    lemma_update_valid(before, i as int, nv);
                }
                Ok(())
            },
        },
    }
}

/// Attaches an uploaded image to record `id`: deletes the file of its
/// previous image, if any (a missing file is no error), stores the bytes
/// under a name made of `millis`, the identifier and the upload's extension,
/// points the record at that name and returns it. Fails with `NotFoundError`,
/// and changes nothing, where no record has that identifier.
pub fn save_image(id: i32, conn: &mut WizardStore, upload: ImageUpload, millis: u128) -> (r: Result<String, WizardError>)
    requires
        old(conn).wf(),
    ensures
        final(conn).wf(),
        match old(conn)@.row(id) {
            Some(_) => r matches Ok(name) && {
                &&& name@ == stored_name(millis as nat, id as int, chosen_extension(text_of(upload.file_name)))
                &&& final(conn)@ == old(conn)@.attached(id, name@, upload.bytes@)
            },
            None => r matches Err(WizardError::NotFoundError) && final(conn)@ == old(conn)@,
        },
{
    let pos = conn.position(id);
    match gate(pos.is_some()) {
        Err(e) => Err(e),
        Ok(()) => match pos {
            None => Err(WizardError::NotFoundError),
            Some(i) => {
                let ghost before = conn@;
                let prev = copy_text(&conn.rows[i].image_name);
                match &prev {
                    Some(f) => {
                        conn.dir.remove(f);
                    },
                    None => {},
                }
                let upload_name: Option<&str> = match &upload.file_name {
                    Some(n) => Some(n.as_str()),
                    None => None,
                };
                let name = image_file_name(millis, id, upload_name);
                conn.dir.write(name.clone(), upload.bytes);
                let w = Wizard {
                    id: Some(id),
                    name: conn.rows[i].name.clone(),
                    title: conn.rows[i].title.clone(),
                    age: conn.rows[i].age,
                    image_name: Some(name.clone()),
                };
                conn.rows.set(i, w);
                proof {
                    let nv = with_image(before.rows[i as int], Some(name@));
                    assert(conn@.rows =~= before.rows.update(i as int, nv));
                    lemma_update_valid(before, i as int, nv);
                }
                Ok(name)
            },
        },
    }
}

} // verus!
