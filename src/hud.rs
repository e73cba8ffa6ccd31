use vstd::prelude::*;
use crate::geometry::Vec2;

verus! {

pub const SMALL_TEXT_SIZE: u32 = 16;
/// Number of HUD text slots, one per tag.
pub const TEXT_SLOTS: usize = 6;

/// The HUD text entries, one per tag.
#[derive(Clone, Copy, Debug, PartialEq, Eq, Structural)]
pub enum TextTag {
    Score,
    MaxScore,
    PlayerLife,
    ShieldHp1,
    ShieldHp2,
    ShieldHp3,
}

/// A HUD entry: a number shown after its tag's label, at a world position.
#[derive(Clone, Copy, Debug, PartialEq, Eq, Structural)]
pub struct TextField {
    pub tag: TextTag,
    pub value: i64,
    pub text_size: u32,
    pub position: Vec2,
}

pub open spec fn slot_of(tag: TextTag) -> int {
    match tag {
        TextTag::Score => 0,
        TextTag::MaxScore => 1,
        TextTag::PlayerLife => 2,
        TextTag::ShieldHp1 => 3,
        TextTag::ShieldHp2 => 4,
        TextTag::ShieldHp3 => 5,
    }
}

fn slot(tag: TextTag) -> (r: usize)
    ensures
        r == slot_of(tag),
{
    match tag {
        TextTag::Score => 0,
        TextTag::MaxScore => 1,
        TextTag::PlayerLife => 2,
        TextTag::ShieldHp1 => 3,
        TextTag::ShieldHp2 => 4,
        TextTag::ShieldHp3 => 5,
    }
}

/// The HUD table: at most one entry per tag.
#[derive(Debug)]
pub struct HudTexts {
    /// Entry of each tag, indexed by `slot_of`.
    pub slots: Vec<Option<TextField>>,
}

/// The table with the entry of `tag` (if there is one) showing `value`.
pub open spec fn with_value(v: Seq<Option<TextField>>, tag: TextTag, value: i64) -> Seq<
    Option<TextField>,
> {
    match v[slot_of(tag)] {
        Some(f) => v.update(slot_of(tag), Some(TextField { value, ..f })),
        None => v,
    }
}

/// The score, best-score and life entries are all present.
pub open spec fn core_texts_present(v: Seq<Option<TextField>>) -> bool {
    &&& v[slot_of(TextTag::Score)].is_some()
    &&& v[slot_of(TextTag::MaxScore)].is_some()
    &&& v[slot_of(TextTag::PlayerLife)].is_some()
}

impl HudTexts {
    pub open spec fn view(&self) -> Seq<Option<TextField>> {
        self.slots@
    }

    pub open spec fn wf(&self) -> bool {
        &&& self.slots@.len() == TEXT_SLOTS
        &&& forall|i: int|
            0 <= i < TEXT_SLOTS ==> match #[trigger] self.slots@[i] {
                Some(f) => slot_of(f.tag) == i,
                None => true,
            }
    }

    pub open spec fn entry(&self, tag: TextTag) -> Option<TextField> {
        self.slots@[slot_of(tag)]
    }

    /// An empty table.
    pub fn new() -> (r: HudTexts)
        ensures
            r.wf(),
            forall|t: TextTag| r.entry(t).is_none(),
    {
        let mut slots: Vec<Option<TextField>> = Vec::new();
        let mut i: usize = 0;
        while i < TEXT_SLOTS
            invariant
                i <= TEXT_SLOTS,
                slots@.len() == i,
                forall|k: int| 0 <= k < i ==> (#[trigger] slots@[k]).is_none(),
            decreases TEXT_SLOTS - i,
        {
            slots.push(None);
            i = i + 1;
        }
        HudTexts { slots }
    }

    /// The entry of `tag`, if any.
    pub fn get(&self, tag: TextTag) -> (r: Option<TextField>)
        requires
            self.wf(),
        ensures
            r == self.entry(tag),
    {
        self.slots[slot(tag)]
    }

    /// Puts `field` in the slot of its tag, replacing what was there.
    pub fn insert(&mut self, field: TextField)
        requires
            old(self).wf(),
        ensures
            final(self).wf(),
            final(self)@ == old(self)@.update(slot_of(field.tag), Some(field)),
    {
        let s = slot(field.tag);
        self.slots.set(s, Some(field));
    }

    /// Drops the entry of `tag`.
    pub fn remove(&mut self, tag: TextTag)
        requires
            old(self).wf(),
        ensures
            final(self).wf(),
            final(self)@ == old(self)@.update(slot_of(tag), None),
    {
        let s = slot(tag);
        self.slots.set(s, None);
    }

    /// Shows `value` in the entry of `tag`, if the table has one.
    pub fn set_value(&mut self, tag: TextTag, value: i64)
        requires
            old(self).wf(),
        ensures
            final(self).wf(),
            final(self)@ == with_value(old(self)@, tag, value),
    {
        let s = slot(tag);
        match self.slots[s] {
            Some(f) => {
                self.slots.set(s, Some(TextField { value, ..f }));
            },
            None => {},
        }
    }

    /// The present entries, in tag order.
    pub fn entries(&self) -> (r: Vec<TextField>)
        requires
            self.wf(),
        ensures
            r@ == present(self@),
    {
        let mut out: Vec<TextField> = Vec::new();
        let mut i: usize = 0;
        while i < TEXT_SLOTS
            invariant
                i <= TEXT_SLOTS,
                self.wf(),
                out@ == present(self@.take(i as int)),
            decreases TEXT_SLOTS - i,
        {
            assert(self@.take(i + 1).drop_last() =~= self@.take(i as int));
            match self.slots[i] {
                Some(f) => {
                    out.push(f);
                },
                None => {},
            }
            i = i + 1;
        }
        assert(self@.take(TEXT_SLOTS as int) =~= self@);
        out
    }
}

/// The fields held in `v`, in order.
pub open spec fn present(v: Seq<Option<TextField>>) -> Seq<TextField>
    decreases v.len(),
{
    if v.len() == 0 {
        Seq::empty()
    } else {
        match v.last() {
            Some(f) => present(v.drop_last()).push(f),
            None => present(v.drop_last()),
        }
    }
}

pub open spec fn label_of(tag: TextTag) -> Seq<char> {
    match tag {
        TextTag::Score => "Score: "@,
        TextTag::MaxScore => "Max score: "@,
        TextTag::PlayerLife => "Life: "@,
        _ => ""@,
    }
}

impl TextTag {
    /// The text shown before the entry's number.
    pub fn label(&self) -> (r: &'static str)
        ensures
            r@ == label_of(*self),
    {
        match self {
            TextTag::Score => "Score: ",
            TextTag::MaxScore => "Max score: ",
            TextTag::PlayerLife => "Life: ",
            _ => "",
        }
    }
}

} // verus!
