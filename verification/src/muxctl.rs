//! The kernel's decisions when it controls a tile multiplexer: resetting a tile, configuring
//! endpoints on it, and the calls that the multiplexer makes to the kernel.
use vstd::prelude::*;

use crate::errors::Code;
use crate::kobjs::MGateObject;

verus! {

/// The activity id that endpoints of unshared tiles carry.
pub const INVAL_ID: u64 = 0xFFFF;

/// The activity id to configure an endpoint of activity `act` with: its own on shared tiles,
/// `INVAL_ID` otherwise.
pub fn ep_activity_id(act: u64, shared: bool) -> (r: u64)
    ensures
        r == (if shared {
            act
        } else {
            INVAL_ID
        }),
{
    if shared {
        act
    } else {
        INVAL_ID
    }
}

/// May tile `tile` get a memory endpoint for `mgate`? Not if the region is exclusive to another
/// tile (`NoPerm`).
pub fn config_mem_check(tile: u64, mgate: &MGateObject) -> (r: Result<(), Code>)
    ensures
        r == (match mgate.exclusive {
            Some(t) => if t != tile {
                Err(Code::NoPerm)
            } else {
                Ok(())
            },
            None => Ok(()),
        }),
{
    match mgate.exclusive_tile() {
        Some(t) => {
            if t != tile {
                Err(Code::NoPerm)
            } else {
                Ok(())
            }
        },
        None => Ok(()),
    }
}

/// Does invalidating an endpoint that had the messages `unread_mask` unread require telling the
/// multiplexer? Only if messages were unread, notification is requested and the tile runs a
/// multiplexer.
pub fn notify_invalidation(unread_mask: u32, notify: bool, supports_mux: bool) -> (r: bool)
    ensures
        r == (unread_mask != 0 && notify && supports_mux),
{
    unread_mask != 0 && notify && supports_mux
}

/// Checks reconfiguring protection endpoint `ep_exists` (whether the tile has its endpoint
/// objects, i.e., is initialized), which is `configured` or not, with a memory gate if
/// `with_mgate`.
///
/// Fails with `InvState` for an uninitialized tile and with `Exists` for replacing a configured
/// endpoint without `overwrite`.
pub fn pmp_reconfig_check(ep_exists: bool, configured: bool, with_mgate: bool, overwrite: bool) -> (r:
    Result<(), Code>)
    ensures
        r == (if !ep_exists {
            Err(Code::InvState)
        } else if with_mgate && configured && !overwrite {
            Err(Code::Exists)
        } else {
            Ok(())
        }),
{
    if !ep_exists {
        return Err(Code::InvState);
    }
    if with_mgate && configured && !overwrite {
        return Err(Code::Exists);
    }
    Ok(())
}

/// Decides a reset of a tile: returns whether it starts the tile (when it is not initialized)
/// or stops it.
///
/// Fails with `InvState` while activities run on the tile.
pub fn reset_start(has_activities: bool, initialized: bool) -> (r: Result<bool, Code>)
    ensures
        r == (if has_activities {
            Err(Code::InvState)
        } else {
            Ok(!initialized)
        }),
{
    if has_activities {
        return Err(Code::InvState);
    }
    Ok(!initialized)
}

/// Checks that starting a tile has what it needs: memory for the multiplexer on programmable
/// tiles (`InvArgs` otherwise).
pub fn mux_mem_check(programmable: bool, has_mux_mem: bool) -> (r: Result<(), Code>)
    ensures
        r == (if programmable && !has_mux_mem {
            Err(Code::InvArgs)
        } else {
            Ok(())
        }),
{
    if programmable && !has_mux_mem {
        return Err(Code::InvArgs);
    }
    Ok(())
}

/// The instructions written at the start of the multiplexer's memory to jump to its entry.
#[derive(Clone, Copy, Debug, PartialEq, Eq, Structural)]
pub enum Trampoline {
    /// None is needed.
    Nothing,
    /// One 64-bit word: a jump 0x3000 bytes ahead.
    Jump64(u64),
    /// Two 32-bit words: load 0x12000 into a register and jump there.
    Rv32(u32, u32),
}

/// The trampoline for a tile: on the hardware platform for cores other than 32-bit RISC-V; on
/// the simulator for 32-bit RISC-V cores without a coupled accelerator.
pub fn trampoline(hw: bool, rv32: bool, coreacc: bool) -> (r: Trampoline)
    ensures
        r == (if hw {
            if !rv32 {
                Trampoline::Jump64(0x306f)
            } else {
                Trampoline::Nothing
            }
        } else if rv32 && !coreacc {
            Trampoline::Rv32(0x0001_22b7, 0x0000_8282)
        } else {
            Trampoline::Nothing
        }),
{
    if hw {
        if !rv32 {
            Trampoline::Jump64(0x0000_0000_0000_306f)
        } else {
            Trampoline::Nothing
        }
    } else if rv32 && !coreacc {
        Trampoline::Rv32(0x0001_22b7, 0x0000_8282)
    } else {
        Trampoline::Nothing
    }
}

/// How the kind of multiplexer of a started tile is determined.
#[derive(Clone, Copy, Debug, PartialEq, Eq, Structural)]
pub enum MuxKind {
    /// The full multiplexer (root's tile, which cannot be asked yet).
    TileMux,
    /// No multiplexer.
    NoMux,
    /// Ask the multiplexer.
    Ask,
}

/// The kind of multiplexer after starting a tile for root or not, on a tile that supports a
/// multiplexer or not.
pub fn mux_kind(root: bool, supports_mux: bool) -> (r: MuxKind)
    ensures
        r == (if root {
            MuxKind::TileMux
        } else if !supports_mux {
            MuxKind::NoMux
        } else {
            MuxKind::Ask
        }),
{
    if root {
        MuxKind::TileMux
    } else if !supports_mux {
        MuxKind::NoMux
    } else {
        MuxKind::Ask
    }
}

/// Does an exit call of the multiplexer for activity `act` stop it? Only if the activity is on
/// that tile (`acts`).
pub fn exit_stops(acts: &Vec<u64>, act: u64) -> (r: bool)
    ensures
        r == acts@.contains(act),
{
    crate::caps::vec_contains(acts, act)
}

/// The time and page-table quotas of a tile as its multiplexer reports them.
#[derive(Clone, Copy, Debug, PartialEq, Eq, Structural)]
pub struct MuxQuotas {
    pub time_id: u64,
    pub time_total: u64,
    pub time_left: u64,
    pub pts_id: u64,
    pub pts_total: usize,
    pub pts_left: usize,
}

/// Reads the multiplexer's answer (`val1`, `val2`) on the quotas `time` and `pts` of tile
/// `tile`: each value holds the total in its upper and what is left in its lower 32 bits, and
/// the quotas are named globally by the tile in the bits above the lowest eight.
pub fn quotas_from_reply(tile: u16, time: u64, pts: u64, val1: u64, val2: u64) -> (r: MuxQuotas)
    ensures
        r.time_id == ((tile as u64) << 8u64) | time,
        r.pts_id == ((tile as u64) << 8u64) | pts,
        r.time_total == val1 / 0x1_0000_0000,
        r.time_left == val1 % 0x1_0000_0000,
        r.pts_total == val2 / 0x1_0000_0000,
        r.pts_left == val2 % 0x1_0000_0000,
{
    let tile_id = (tile as u64) << 8u64;
    assert(val1 >> 32u64 == val1 / 0x1_0000_0000) by (bit_vector);
    assert(val1 & 0xFFFF_FFFFu64 == val1 % 0x1_0000_0000) by (bit_vector);
    assert(val2 >> 32u64 == val2 / 0x1_0000_0000) by (bit_vector);
    assert(val2 & 0xFFFF_FFFFu64 == val2 % 0x1_0000_0000) by (bit_vector);
    MuxQuotas {
        time_id: tile_id | time,
        time_total: val1 >> 32u64,
        time_left: val1 & 0xFFFF_FFFF,
        pts_id: tile_id | pts,
        pts_total: (val2 >> 32u64) as usize,
        pts_left: (val2 & 0xFFFF_FFFF) as usize,
    }
}

/// The global address of the page that the multiplexer's translation `val` lies in: the
/// address with its offset within the page cleared.
pub fn translation_page(val: u64) -> (r: u64)
    ensures
        r == val - val % 0x1000,
{
    assert(val & !0xFFFu64 == val - val % 0x1000) by (bit_vector);
    val & !0xFFFu64
}

/// May a call be sent to the multiplexer? Not when it has to be running (`check_init`) and is
/// not (`RecvGone`), nor on behalf of an activity (`act_alive` tells whether it still runs a
/// program) that is dead or gone (`ObjectGone`).
pub fn sidecall_check(check_init: bool, initialized: bool, act_alive: Option<bool>) -> (r: Result<(), Code>)
    ensures
        r == (if check_init && !initialized {
            Err(Code::RecvGone)
        } else if act_alive == Some(false) {
            Err(Code::ObjectGone)
        } else {
            Ok(())
        }),
{
    if check_init && !initialized {
        return Err(Code::RecvGone);
    }
    match act_alive {
        Some(false) => Err(Code::ObjectGone),
        _ => Ok(()),
    }
}

} // verus!
