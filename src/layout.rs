//! Editing the fader layout: placing an app, filling the strip with one
//! app, and removing the app at a fader.
use vstd::prelude::*;
use vstd::arithmetic::div_mod::{lemma_fundamental_div_mod_converse};

use crate::cli::{covers, entries_of, find_entry_at_slot, layout_entries, LayoutEntry, UsageError};
use crate::protocol::{Layout, Slot, GLOBAL_CHANNELS};

verus! {

/// Why an app cannot be placed.
#[derive(Clone, Copy, Debug, PartialEq, Eq)]
pub enum PlaceError {
    /// The fader number is outside 1 to 16.
    Usage(UsageError),
    /// The app needs `channels` faders but only `remaining` are left from
    /// fader `slot` on.
    DoesNotFit { channels: usize, slot: u8, remaining: usize },
}

/// The app in slot `i` occupies some fader in `[idx, end)`.
pub open spec fn overlaps(i: int, s: Option<Slot>, idx: int, end: int) -> bool {
    match s {
        Some((_, ch, _)) => i < end && i + ch > idx,
        None => false,
    }
}

/// `slots` without the apps that occupy a fader in `[idx, end)`.
pub open spec fn cleared(slots: Seq<Option<Slot>>, idx: int, end: int) -> Seq<Option<Slot>> {
    Seq::new(slots.len(), |i: int| if overlaps(i, slots[i], idx, end) { None } else { slots[i] })
}

/// The slot holds an app with layout id `id`.
pub open spec fn has_id(s: Option<Slot>, id: int) -> bool {
    match s {
        Some((_, _, l)) => l == id,
        None => false,
    }
}

/// Some app of `slots` has layout id `id`.
pub open spec fn id_used(slots: Seq<Option<Slot>>, id: int) -> bool {
    exists|i: int| 0 <= i < slots.len() && has_id(#[trigger] slots[i], id)
}

/// The smallest layout id from `from` up to 15 that no app of `slots` has;
/// 0 where all are taken.
pub open spec fn free_id(slots: Seq<Option<Slot>>, from: int) -> u8
    decreases 16 - from,
{
    if from >= 16 || from < 0 {
        0
    } else if !id_used(slots, from) {
        from as u8
    } else {
        free_id(slots, from + 1)
    }
}

/// The layout after placing the app at fader `slot`.
pub open spec fn placed(slots: Seq<Option<Slot>>, slot: int, app_id: u8, channels: usize) -> Seq<
    Option<Slot>,
> {
    let c = cleared(slots, slot - 1, slot - 1 + channels);
    c.update(slot - 1, Some((app_id, channels, free_id(c, 0))))
}

fn id_in_use(slots: &[Option<Slot>; 16], id: u8) -> (r: bool)
    ensures
        r == id_used(slots@, id as int),
{
    let mut i: usize = 0;
    while i < 16
        invariant
            i <= 16,
            forall|k: int| 0 <= k < i ==> !has_id(#[trigger] slots@[k], id as int),
        decreases 16 - i,
    {
        if let Some((_, _, l)) = slots[i] {
            if l == id {
                return true;
            }
        }
        i = i + 1;
    }
    false
}

/// Puts the app with `app_id`, `channels` wide, at fader `slot` (from 1):
/// apps that would overlap it are removed, and it gets the smallest free
/// layout id.
pub fn place_app(layout: &Layout, slot: u8, app_id: u8, channels: usize) -> (r: Result<
    Layout,
    PlaceError,
>)
    ensures
        match r {
            Ok(l) => 1 <= slot <= 16 && slot - 1 + channels <= 16 && l.0@ == placed(
                layout.0@,
                slot as int,
                app_id,
                channels,
            ),
            Err(PlaceError::Usage(e)) => !(1 <= slot <= 16) && e == UsageError::InvalidSlot(slot),
            Err(PlaceError::DoesNotFit { channels: c, slot: s, remaining }) => {
                &&& 1 <= slot <= 16
                &&& slot - 1 + channels > 16
                &&& c == channels && s == slot && remaining == 17 - slot
            },
        },
{
    if slot < 1 || slot > 16 {
        return Err(PlaceError::Usage(UsageError::InvalidSlot(slot)));
    }
    let idx = slot as usize - 1;
    if channels > GLOBAL_CHANNELS - idx {
        return Err(PlaceError::DoesNotFit { channels, slot, remaining: GLOBAL_CHANNELS - idx });
    }
    let end = idx + channels;
    let mut slots = layout.0;
    let mut i: usize = 0;
    while i < 16
        invariant
            i <= 16,
            idx < 16,
            end == idx + channels,
            end <= 16,
            forall|k: int|
                0 <= k < 16 ==> #[trigger] slots@[k] == if k < i {
                    cleared(layout.0@, idx as int, end as int)[k]
                } else {
                    layout.0@[k]
                },
        decreases 16 - i,
    {
        if let Some((_, ch, _)) = slots[i] {
            let reaches = if i > idx {
                true
            } else {
                ch > idx - i
            };
            if i < end && reaches {
                slots[i] = None;
            }
        }
        i = i + 1;
    }
    let ghost c = cleared(layout.0@, idx as int, end as int);
    assert(slots@ =~= c);
    let mut id: u8 = 0;
    while id < 16 && id_in_use(&slots, id)
        invariant
            slots@ == c,
            id <= 16,
            free_id(c, 0) == free_id(c, id as int),
        decreases 16 - id,
    {
        id = id + 1;
    }
    let layout_id = if id < 16 {
        id
    } else {
        0
    };
    assert(layout_id == free_id(c, 0));
    slots[idx] = Some((app_id, channels, layout_id));
    assert(slots@ =~= placed(layout.0@, slot as int, app_id, channels));
    Ok(Layout(slots))
}

/// The strip filled with copies of one app: one every `channels` faders
/// from fader index 0, as many as fit, with layout ids 0, 1, 2, ...
pub open spec fn filled(app_id: u8, channels: usize) -> Seq<Option<Slot>> {
    Seq::new(
        16,
        |i: int|
            if i % (channels as int) == 0 && i + channels <= 16 {
                Some((app_id, channels, (i / (channels as int)) as u8))
            } else {
                None
            },
    )
}

pub fn fill_layout(app_id: u8, channels: usize) -> (r: Layout)
    requires
        channels >= 1,
    ensures
        r.0@ == filled(app_id, channels),
{
    let mut slots: [Option<Slot>; 16] = [None; 16];
    if channels > 16 {
        proof {
            assert forall|i: int| 0 <= i < 16 implies slots@[i] == filled(app_id, channels)[i] by {
            }
        }
        assert(slots@ =~= filled(app_id, channels));
        return Layout(slots);
    }
    let mut pos: usize = 0;
    let mut layout_id: u8 = 0;
    while pos + channels <= GLOBAL_CHANNELS
        invariant
            1 <= channels <= 16,
            pos <= 16,
            pos == layout_id as int * channels,
            layout_id <= 16,
            forall|i: int|
                0 <= i < 16 ==> #[trigger] slots@[i] == if i < pos {
                    filled(app_id, channels)[i]
                } else {
                    None
                },
        decreases 16 - pos,
    {
        proof {
            assert forall|i: int| pos < i < pos + channels implies #[trigger] (i % (channels as int))
                != 0 by {
                lemma_fundamental_div_mod_converse(i, channels as int, layout_id as int, i - pos);
            }
            lemma_fundamental_div_mod_converse(pos as int, channels as int, layout_id as int, 0);
            assert(layout_id as int * channels + channels == (layout_id as int + 1) * channels)
                by (nonlinear_arith);
            assert(layout_id < 16) by (nonlinear_arith)
                requires
                    pos == layout_id as int * channels,
                    pos + channels <= 16,
                    channels >= 1,
            ;
        }
        slots[pos] = Some((app_id, channels, layout_id));
        pos = pos + channels;
        layout_id = layout_id + 1;
    }
    proof {
        assert forall|i: int| 0 <= i < 16 implies slots@[i] == filled(app_id, channels)[i] by {
            if i >= pos {
                assert(i + channels > 16);
            }
        }
    }
    assert(slots@ =~= filled(app_id, channels));
    Layout(slots)
}

/// Removes the app that holds fader `slot` (from 1), and says which entry
/// it was; `None` where the fader is free.
pub fn remove_at_slot(layout: &Layout, slot: u8) -> (r: Option<(Layout, LayoutEntry)>)
    requires
        slot >= 1,
    ensures
        match r {
            Some((l, e)) => {
                &&& exists|j: int|
                    0 <= j < entries_of(layout.0@).len() && e == entries_of(layout.0@)[j] && covers(
                        e,
                        slot - 1,
                    ) && forall|k: int|
                        0 <= k < j ==> !covers(#[trigger] entries_of(layout.0@)[k], slot - 1)
                &&& e.start < 16
                &&& l.0@ == layout.0@.update(e.start as int, None)
            },
            None => forall|k: int|
                0 <= k < entries_of(layout.0@).len() ==> !covers(
                    #[trigger] entries_of(layout.0@)[k],
                    slot - 1,
                ),
        },
{
    let entries = layout_entries(layout);
    proof {
        lemma_entries_in_range(layout.0@);
    }
    match find_entry_at_slot(entries.as_slice(), slot) {
        Some(e) => {
            let entry = *e;
            let mut slots = layout.0;
            slots[entry.start] = None;
            Some((Layout(slots), entry))
        },
        None => None,
    }
}

proof fn lemma_entries_in_range(slots: Seq<Option<Slot>>)
    requires
        slots.len() <= 16,
    ensures
        forall|k: int|
            0 <= k < entries_of(slots).len() ==> (#[trigger] entries_of(slots)[k]).start < slots.len(),
    decreases slots.len(),
{
    if slots.len() > 0 {
        lemma_entries_in_range(slots.drop_last());
        let rest = entries_of(slots.drop_last());
        assert forall|k: int| 0 <= k < entries_of(slots).len() implies (#[trigger] entries_of(
            slots,
        )[k]).start < slots.len() by {
            if k < rest.len() {
                assert(entries_of(slots)[k] == rest[k]);
            }
        }
    }
}

} // verus!
