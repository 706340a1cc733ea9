//! The shared item list: unowned entries, listed in creation order.

use vstd::prelude::*;

verus! {

/// One row of the item table.
pub struct Item {
    pub item_id: u64,
    pub content: String,
    pub created_at: i64,
}

/// Mathematical image of an item row.
pub struct ItemView {
    pub item_id: u64,
    pub content: Seq<char>,
    pub created_at: i64,
}

impl View for Item {
    type V = ItemView;

    open spec fn view(&self) -> ItemView {
        ItemView { item_id: self.item_id, content: self.content@, created_at: self.created_at }
    }
}

impl Clone for Item {
    fn clone(&self) -> (r: Self)
        ensures
            r@ == self@,
    {
        Item {
            item_id: self.item_id,
            content: self.content.clone(),
            created_at: self.created_at,
        }
    }
}

/// No two items share an id.
pub open spec fn item_ids_unique(s: Seq<ItemView>) -> bool {
    forall|i: int, j: int| 0 <= i < j < s.len() ==> s[i].item_id != s[j].item_id
}

/// Creation times never decrease along the table.
pub open spec fn items_time_ordered(s: Seq<ItemView>) -> bool {
    forall|i: int, j: int| 0 <= i <= j < s.len() ==> s[i].created_at <= s[j].created_at
}

/// The item table, with the id and clock state the server assigns from.
pub struct ItemStore {
    pub rows: Vec<Item>,
    pub next_id: u64,
    pub last_time: i64,
}

impl View for ItemStore {
    type V = Seq<ItemView>;

    open spec fn view(&self) -> Seq<ItemView> {
        self.rows@.map_values(|t: Item| t@)
    }
}

impl ItemStore {
    /// Well-formedness: unique ids below the id counter, creation times
    /// non-decreasing and bounded by the last assigned time.
    pub open spec fn wf(&self) -> bool {
        &&& item_ids_unique(self@)
        &&& items_time_ordered(self@)
        &&& forall|i: int| 0 <= i < self@.len() ==> (#[trigger] self@[i]).item_id < self.next_id
        &&& forall|i: int| 0 <= i < self@.len() ==> (#[trigger] self@[i]).created_at <= self.last_time
    }

    pub fn new() -> (s: Self)
        ensures
            s@ == Seq::<ItemView>::empty(),
            s.next_id == 0,
            s.last_time == i64::MIN,
            s.wf(),
    {
        let s = ItemStore { rows: Vec::new(), next_id: 0, last_time: i64::MIN };
        proof {
            assert(s@ =~= Seq::<ItemView>::empty());
        }
        s
    }

    /// Insert an item with a fresh id and a server-assigned creation
    /// time that never runs backwards.
    pub fn create_item(&mut self, content: String, now: i64) -> (t: Item)
        requires
            old(self).wf(),
            old(self).next_id < u64::MAX,
        ensures
            final(self).wf(),
            t@.content == content@,
            (t@.created_at == if now > old(self).last_time {
                now
            } else {
                old(self).last_time
            }),
            forall|i: int| 0 <= i < old(self)@.len()
                ==> (#[trigger] old(self)@[i]).item_id != t@.item_id,
            final(self)@ == old(self)@.push(t@),
    {
        let stamp = if now > self.last_time {
            now
        } else {
            self.last_time
        };
        let t = Item { item_id: self.next_id, content, created_at: stamp };
        let copy = t.clone();
        self.rows.push(t);
        self.next_id = self.next_id + 1;
        self.last_time = stamp;
        proof {
            assert(self@ =~= old(self)@.push(copy@));
        }
        copy
    }

    /// Every item, in creation order.
    pub fn get_items(&self) -> (r: Vec<Item>)
        requires
            self.wf(),
        ensures
            r@.map_values(|t: Item| t@) == self@,
            items_time_ordered(r@.map_values(|t: Item| t@)),
    {
        let ghost vs = self@;
        let mut r: Vec<Item> = Vec::new();
        let n = self.rows.len();
        let mut i: usize = 0;
        while i < n
            invariant
                n == self.rows.len(),
                vs == self@,
                n == vs.len(),
                0 <= i <= n,
                r@.len() == i,
                forall|j: int| 0 <= j < i ==> (#[trigger] r@[j])@ == vs[j],
            decreases n - i,
        {
            let copy = self.rows[i].clone();
            r.push(copy);
            i = i + 1;
        }
        proof {
            assert(r@.map_values(|t: Item| t@) =~= vs);
        }
        r
    }
}

} // verus!
