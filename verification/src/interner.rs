use vstd::prelude::*;

verus! {

/// Bidirectional table between strings and dense integer ids.
///
/// Ids are assigned sequentially in first-seen order; an id is the position of
/// its string in the table. Entries are never removed and never reused, so an
/// id stays valid for the life of the deployment.
pub struct StringToNumMap {
    num_to_string: Vec<String>,
}

impl StringToNumMap {
    /// The strings interned so far, in id order.
    pub closed spec fn strings(&self) -> Seq<Seq<char>> {
        self.num_to_string@.map(|_i: int, s: String| s@)
    }

    /// No string is interned twice, so each has exactly one id.
    pub open spec fn wf(&self) -> bool {
        forall|i: int, j: int|
            0 <= i < j < self.strings().len() ==> self.strings()[i] != self.strings()[j]
    }

    /// Whether `s` already has an id.
    pub open spec fn contains(&self, s: Seq<char>) -> bool {
        exists|i: int| 0 <= i < self.strings().len() && self.strings()[i] == s
    }

    /// The id of an already-interned string.
    pub open spec fn id_of(&self, s: Seq<char>) -> int {
        choose|i: int| 0 <= i < self.strings().len() && self.strings()[i] == s
    }

    pub fn new() -> (r: StringToNumMap)
        ensures
            r.strings() == Seq::<Seq<char>>::empty(),
            r.wf(),
    {
        let r = StringToNumMap { num_to_string: Vec::new() };
        assert(r.strings() =~= Seq::<Seq<char>>::empty());
        r
    }

    /// Returns the existing id of `string`, or assigns it the next sequential
    /// id and records the reverse mapping. Idempotent per string.
    pub fn convert_to_num(&mut self, string: String) -> (id: u32)
        requires
            old(self).wf(),
            old(self).strings().len() < u32::MAX,
        ensures
            final(self).wf(),
            old(self).contains(string@) ==> {
                &&& final(self).strings() == old(self).strings()
                &&& id == old(self).id_of(string@)
            },
            !old(self).contains(string@) ==> {
                &&& final(self).strings() == old(self).strings().push(string@)
                &&& id == old(self).strings().len()
            },
            final(self).contains(string@),
            final(self).strings()[id as int] == string@,
            id < final(self).strings().len(),
    {
        let n = self.num_to_string.len();
        let mut i: usize = 0;
        while i < n
            invariant
                *self == *old(self),
                old(self).wf(),
                n == self.num_to_string.len(),
                n < u32::MAX,
                0 <= i <= n,
                forall|j: int| 0 <= j < i ==> self.strings()[j] != string@,
            decreases n - i,
        {
            if self.num_to_string[i] == string {
                proof {
                    assert(self.strings()[i as int] == string@);
                    let k = self.id_of(string@);
                    assert(0 <= k < self.strings().len() && self.strings()[k] == string@);
                    if k < i {
                        assert(self.strings()[k] != self.strings()[i as int]);
                    } else if i < k {
                        assert(self.strings()[i as int] != self.strings()[k]);
                    }
                }
                return i as u32;
            }
            i += 1;
        }
        assert(!self.contains(string@));
        let ghost old_strings = self.strings();
        self.num_to_string.push(string);
        proof {
            assert(self.strings() =~= old_strings.push(string@));
            assert(self.strings()[n as int] == string@);
            assert forall|a: int, b: int|
                0 <= a < b < self.strings().len() implies self.strings()[a] != self.strings()[b] by {
                if b < n {
                    assert(old_strings[a] != old_strings[b]);
                } else {
                    assert(self.strings()[a] == old_strings[a]);
                    assert(old_strings[a] != string@);
                }
            }
        }
        n as u32
    }

    /// Reverse lookup: the string with id `num`, absent only when no such id
    /// was ever assigned.
    pub fn convert_to_string(&self, num: u32) -> (r: Option<String>)
        ensures
            (num as int) < self.strings().len() ==> (r matches Some(s) && s@ == self.strings()[num as int]),
            (num as int) >= self.strings().len() ==> r is None,
    {
        if (num as usize) < self.num_to_string.len() {
            Some(self.num_to_string[num as usize].clone())
        } else {
            None
        }
    }

    /// How many strings have been interned.
    pub fn len(&self) -> (r: usize)
        ensures
            r == self.strings().len(),
    {
        self.num_to_string.len()
    }
}

impl Default for StringToNumMap {
    fn default() -> (r: Self)
        ensures
            r.strings() == Seq::<Seq<char>>::empty(),
            r.wf(),
    {
        StringToNumMap::new()
    }
}

} // verus!
