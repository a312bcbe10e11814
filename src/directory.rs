use vstd::prelude::*;

verus! {

/// One stored image: its file name and its bytes.
pub struct StoredFile {
    pub name: String,
    pub bytes: Vec<u8>,
}

/// No two stored files share a name.
pub open spec fn names_unique(files: Seq<StoredFile>) -> bool {
    forall|i: int, j: int|
        0 <= i < j < files.len() ==> #[trigger] files[i].name@ != #[trigger] files[j].name@
}

/// The contents of a directory: each file name mapped to its bytes.
pub open spec fn contents(files: Seq<StoredFile>) -> Map<Seq<char>, Seq<u8>>
    decreases files.len(),
{
    if files.len() == 0 {
        Map::empty()
    } else {
        contents(files.drop_last()).insert(files.last().name@, files.last().bytes@)
    }
}

proof fn lemma_contents(files: Seq<StoredFile>)
    requires
        names_unique(files),
    ensures
        forall|k: Seq<char>|
            #[trigger] contents(files).contains_key(k) <==> exists|i: int|
                0 <= i < files.len() && files[i].name@ == k,
        forall|i: int|
            0 <= i < files.len() ==> #[trigger] contents(files)[files[i].name@] == files[i].bytes@,
    decreases files.len(),
{
    if files.len() > 0 {
        let init = files.drop_last();
        assert(names_unique(init));
        lemma_contents(init);
        assert forall|k: Seq<char>|
            #[trigger] contents(files).contains_key(k) <==> exists|i: int|
                0 <= i < files.len() && files[i].name@ == k by {
            if contents(init).contains_key(k) {
                let i = choose|i: int| 0 <= i < init.len() && init[i].name@ == k;
                assert(files[i].name@ == k);
            }
            if exists|i: int| 0 <= i < files.len() && files[i].name@ == k {
                let i = choose|i: int| 0 <= i < files.len() && files[i].name@ == k;
                if i < init.len() {
                    assert(init[i].name@ == k);
                }
            }
        }
        assert forall|i: int|
            0 <= i < files.len() implies #[trigger] contents(files)[files[i].name@]
            == files[i].bytes@ by {
            if i < init.len() {
                assert(init[i] == files[i]);
                assert(files[i].name@ != files[files.len() - 1].name@);
                assert(contents(init)[init[i].name@] == init[i].bytes@);
            }
        }
    }
}

/// The directory that holds the attached images.
pub struct AttachmentDir {
    files: Vec<StoredFile>,
}

impl View for AttachmentDir {
    type V = Map<Seq<char>, Seq<u8>>;

    closed spec fn view(&self) -> Map<Seq<char>, Seq<u8>> {
        contents(self.files@)
    }
}

impl AttachmentDir {
    /// No two entries share a name.
    pub closed spec fn wf(&self) -> bool {
        names_unique(self.files@)
    }

    /// An empty directory.
    pub fn new() -> (r: Self)
        ensures
            r.wf(),
            r@ == Map::<Seq<char>, Seq<u8>>::empty(),
    {
        AttachmentDir { files: Vec::new() }
    }

    fn position(&self, name: &String) -> (r: Option<usize>)
        ensures
            match r {
                Some(i) => i < self.files@.len() && self.files@[i as int].name@ == name@,
                None => forall|i: int|
                    0 <= i < self.files@.len() ==> self.files@[i].name@ != name@,
            },
    {
        let mut i: usize = 0;
        while i < self.files.len()
            invariant
                i <= self.files@.len(),
                forall|j: int| 0 <= j < i ==> self.files@[j].name@ != name@,
            decreases self.files@.len() - i,
        {
            if self.files[i].name == *name {
                return Some(i);
            }
            i = i + 1;
        }
        None
    }

    /// Whether a file of that name is stored.
    pub fn contains(&self, name: &String) -> (r: bool)
        requires
            self.wf(),
        ensures
            r == self@.contains_key(name@),
    {
        proof { lemma_contents(self.files@); }
        self.position(name).is_some()
    }

    /// The bytes stored under that name, if any.
    pub fn read(&self, name: &String) -> (r: Option<&Vec<u8>>)
        requires
            self.wf(),
        ensures
            match r {
                Some(b) => self@.contains_key(name@) && b@ == self@[name@],
                None => !self@.contains_key(name@),
            },
    {
        proof { lemma_contents(self.files@); }
        match self.position(name) {
            Some(i) => Some(&self.files[i].bytes),
            None => None,
        }
    }

    /// Deletes the file of that name; tells whether there was one.
    pub fn remove(&mut self, name: &String) -> (r: bool)
        requires
            old(self).wf(),
        ensures
            final(self).wf(),
            r == old(self)@.contains_key(name@),
            final(self)@ == old(self)@.remove(name@),
    {
        proof { lemma_contents(self.files@); }
        match self.position(name) {
            Some(i) => {
                let ghost before = self.files@;
                self.files.remove(i);
                proof {
                    let after = self.files@;
                    assert(after =~= before.remove(i as int));
                    assert forall|a: int, b: int|
                        0 <= a < b < after.len() implies #[trigger] after[a].name@
                        != #[trigger] after[b].name@ by {
                        let a0 = if a < i { a } else { a + 1 };
                        let b0 = if b < i { b } else { b + 1 };
                        assert(after[a] == before[a0]);
                        assert(after[b] == before[b0]);
                    }
                    lemma_contents(after);
                    assert forall|k: Seq<char>| #[trigger] contents(after).contains_key(k)
                        <==> contents(before).remove(name@).contains_key(k) by {
                        if exists|j: int| 0 <= j < after.len() && after[j].name@ == k {
                            let j = choose|j: int| 0 <= j < after.len() && after[j].name@ == k;
                            let j0 = if j < i { j } else { j + 1 };
                            assert(before[j0].name@ == k);
                        }
                        if contents(before).remove(name@).contains_key(k) {
                            let j0 = choose|j: int| 0 <= j < before.len() && before[j].name@ == k;
                            let j = if j0 < i { j0 } else { j0 - 1 };
                            assert(after[j].name@ == k);
                        }
                    }
                    assert forall|k: Seq<char>| #[trigger] contents(after).contains_key(k)
                        implies contents(after)[k] == contents(before).remove(name@)[k] by {
                        let j = choose|j: int| 0 <= j < after.len() && after[j].name@ == k;
                        let j0 = if j < i { j } else { j + 1 };
                        assert(after[j] == before[j0]);
                    }
                    assert(contents(after) =~= contents(before).remove(name@));
                }
                true
            },
            None => {
                proof {
                    assert(self@ =~= self@.remove(name@));
                }
                false
            },
        }
    }

    /// Stores `bytes` under `name`, replacing any file of that name.
    pub fn write(&mut self, name: String, bytes: Vec<u8>)
        requires
            old(self).wf(),
        ensures
            final(self).wf(),
            final(self)@ == old(self)@.insert(name@, bytes@),
    {
        self.remove(&name);
        let ghost mid = self.files@;
        proof { lemma_contents(mid); }
        self.files.push(StoredFile { name, bytes });
        proof {
            let after = self.files@;
            assert(after.drop_last() =~= mid);
            assert forall|a: int, b: int|
                0 <= a < b < after.len() implies #[trigger] after[a].name@
                != #[trigger] after[b].name@ by {
                if b == after.len() - 1 {
                    assert(!contents(mid).contains_key(name@));
                    assert(mid[a] == after[a]);
                    assert(mid[a].name@ != name@);
                } else {
                    assert(mid[a] == after[a] && mid[b] == after[b]);
                }
            }
            assert(self@ =~= old(self)@.insert(name@, bytes@));
        }
    }
}

} // verus!
