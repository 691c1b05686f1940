use vstd::prelude::*;

verus! {

/// The two shapes of a cumulative list: the empty end, or one item linked to
/// the list before it.
pub enum CumulativeAlt<A> {
    End,
    Prev { item: A, prev: Box<CumulativeList<A>> },
}

/// A linked list that grows by one item at a time and keeps every earlier
/// state reachable: each list holds its newest item and the whole list that
/// came before it, together with its size.
pub struct CumulativeList<A> {
    pub rank: usize,
    pub alt: CumulativeAlt<A>,
}

impl<A> CumulativeList<A> {
    /// The items of the list, oldest first.
    pub open spec fn items(self) -> Seq<A>
        decreases self,
    {
        match self.alt {
            CumulativeAlt::End => Seq::empty(),
            CumulativeAlt::Prev { item, prev } => prev.items().push(item),
        }
    }

    /// A cumulative list is well formed when every recorded size equals the
    /// number of items reachable from it.
    pub open spec fn well_formed(self) -> bool
        decreases self,
    {
        &&& self.rank == self.items().len()
        &&& match self.alt {
            CumulativeAlt::End => true,
            CumulativeAlt::Prev { prev, .. } => prev.well_formed(),
        }
    }

    /// The empty list.
    pub fn empty() -> (r: CumulativeList<A>)
        ensures
            r.well_formed(),
            r.items() == Seq::<A>::empty(),
    {
        CumulativeList { rank: 0, alt: CumulativeAlt::End }
    }

    /// Get list size.
    pub fn size(&self) -> (r: usize)
        requires
            self.well_formed(),
        ensures
            r == self.items().len(),
    {
        self.rank
    }

    /// Get previous list.
    pub fn previous(&self) -> (r: Option<&CumulativeList<A>>)
        requires
            self.well_formed(),
        ensures
            match r {
                Option::Some(p) => {
                    &&& self.items().len() > 0
                    &&& p.well_formed()
                    &&& p.items() == self.items().drop_last()
                },
                Option::None => self.items().len() == 0,
            },
    {
        match &self.alt {
            CumulativeAlt::End => Option::None,
            CumulativeAlt::Prev { prev, .. } => Option::Some(prev),
        }
    }

    /// Get current item.
    pub fn item(&self) -> (r: Option<&A>)
        requires
            self.well_formed(),
        ensures
            match r {
                Option::Some(x) => {
                    &&& self.items().len() > 0
                    &&& *x == self.items().last()
                },
                Option::None => self.items().len() == 0,
            },
    {
        match &self.alt {
            CumulativeAlt::End => Option::None,
            CumulativeAlt::Prev { item, .. } => Option::Some(item),
        }
    }

    /// Get current item together with the previous list.
    pub fn item_and_previous(&self) -> (r: Option<(&A, &CumulativeList<A>)>)
        requires
            self.well_formed(),
        ensures
            match r {
                Option::Some((x, p)) => {
                    &&& self.items().len() > 0
                    &&& *x == self.items().last()
                    &&& p.well_formed()
                    &&& p.items() == self.items().drop_last()
                },
                Option::None => self.items().len() == 0,
            },
    {
        match &self.alt {
            CumulativeAlt::End => Option::None,
            CumulativeAlt::Prev { item, prev } => Option::Some((item, prev)),
        }
    }

    /// The list with one more item after everything this list holds.
    pub fn concat(self, item: A) -> (r: CumulativeList<A>)
        requires
            self.well_formed(),
            self.items().len() < usize::MAX,
        ensures
            r.well_formed(),
            r.items() == self.items().push(item),
    {
        let rank = self.rank + 1;
        CumulativeList { rank, alt: CumulativeAlt::Prev { item, prev: Box::new(self) } }
    }
}

/// A cursor over a cumulative list, handing the items out newest first.
pub struct CumulativeIterator<'a, A> {
    pub ptr: Option<&'a CumulativeList<A>>,
}

/// The items a cursor still has to hand out, newest first.
pub open spec fn remaining<A>(it: CumulativeIterator<'_, A>) -> Seq<A> {
    match it.ptr {
        Option::Some(l) => l.items().reverse(),
        Option::None => Seq::empty(),
    }
}

impl<'a, A> CumulativeIterator<'a, A> {
    /// A cursor over the whole list.
    pub fn over(list: &'a CumulativeList<A>) -> (r: CumulativeIterator<'a, A>)
        requires
            list.well_formed(),
        ensures
            r.well_formed(),
            remaining(r) == list.items().reverse(),
    {
        CumulativeIterator { ptr: Option::Some(list) }
    }

    /// Whether the cursor is well formed.
    pub open spec fn well_formed(self) -> bool {
        match self.ptr {
            Option::Some(l) => l.well_formed(),
            Option::None => true,
        }
    }

    /// The newest item not yet handed out, stepping the cursor past it.
    pub fn next(&mut self) -> (r: Option<&'a A>)
        requires
            old(self).well_formed(),
        ensures
            final(self).well_formed(),
            match r {
                Option::Some(x) => {
                    &&& remaining(*old(self)).len() > 0
                    &&& *x == remaining(*old(self)).first()
                    &&& remaining(*final(self)) == remaining(*old(self)).drop_first()
                },
                Option::None => {
                    &&& remaining(*old(self)).len() == 0
                    &&& remaining(*final(self)) == remaining(*old(self))
                },
            },
    {
        match self.ptr {
            Option::None => Option::None,
            Option::Some(l) => {
                match &l.alt {
                    CumulativeAlt::End => {
                        proof {
                            assert(remaining(*old(self)).len() == 0);
                        }
                        Option::None
                    },
                    CumulativeAlt::Prev { item, prev } => {
                        self.ptr = Option::Some(prev);
                        proof {
                            assert(l.items().reverse().first() == l.items().last());
                            assert(prev.items().reverse() =~= l.items().reverse().drop_first());
                        }
                        Option::Some(item)
                    },
                }
            },
        }
    }
}

} // verus!
