//! The ten-character permission column of a long listing.

use vstd::prelude::*;

verus! {

/// The mode bit shown at `position` of the permission column, for positions
/// 1 to 9: owner read, write, execute, then group, then other.
pub open spec fn permission_mask(position: int) -> u32 {
    0o400u32 >> ((position - 1) as u32)
}

/// The letter that a set bit shows at `position`, for positions 1 to 9.
pub open spec fn permission_letter(position: int) -> char {
    if position % 3 == 1 {
        'r'
    } else if position % 3 == 2 {
        'w'
    } else {
        'x'
    }
}

/// The character at `position` (1 to 9) for `mode`: the letter of the bit
/// where it is set, a dash where it is not.
pub open spec fn permission_glyph(mode: u32, position: int) -> char {
    if mode & permission_mask(position) != 0 {
        permission_letter(position)
    } else {
        '-'
    }
}

/// The leading character: `d` for a directory, a dash for anything else.
pub open spec fn kind_glyph(is_dir: bool) -> char {
    if is_dir {
        'd'
    } else {
        '-'
    }
}

/// The permission column: the kind glyph, then the nine permission glyphs.
/// Bits above the low nine are not shown.
pub open spec fn permission_text(mode: u32, is_dir: bool) -> Seq<char> {
    Seq::new(
        10,
        |position: int|
            if position == 0 {
                kind_glyph(is_dir)
            } else {
                permission_glyph(mode, position)
            },
    )
}

/// Renders mode bits and entry kind as the fixed ten-character column.
pub fn format_permissions(mode: u32, is_dir: bool) -> (perms: String)
    ensures
        perms@ == permission_text(mode, is_dir),
        perms@.len() == 10,
        perms@[0] == (if is_dir { 'd' } else { '-' }),
        forall|position: int|
            1 <= position <= 9 ==> #[trigger] perms@[position] == permission_glyph(mode, position),
{
    let mut perms = String::new();
    perms.push(if is_dir { 'd' } else { '-' });
    let mut position: u32 = 1;
    while position <= 9
        invariant
            1 <= position <= 10,
            perms@.len() == position,
            perms@[0] == kind_glyph(is_dir),
            forall|p: int| 1 <= p < position ==> #[trigger] perms@[p] == permission_glyph(mode, p),
        decreases 10 - position,
    {
        let mask: u32 = 0o400u32 >> (position - 1);
        let letter = if position % 3 == 1 {
            'r'
        } else if position % 3 == 2 {
            'w'
        } else {
            'x'
        };
        perms.push(if mode & mask != 0 { letter } else { '-' });
        position = position + 1;
    }
    perms
}

} // verus!
