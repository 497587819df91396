//! The image that is being debugged and the translation between the
//! addresses it was linked at and the addresses it runs at.

use vstd::prelude::*;

verus! {

/// The executable that is being debugged: its display name and path, the
/// UUID of the file where it has one, the address at which `__TEXT` was
/// linked, and the slide, the signed distance from there to where `__TEXT`
/// was loaded.
#[derive(Debug, Clone)]
pub struct Image {
    pub name: String,
    pub path: String,
    pub uuid: Option<[u8; 16]>,
    pub vmaddr_text: u64,
    pub slide: i64,
}

/// An image together with the only sanctioned way to translate addresses
/// between link time (local) and run time (remote).
#[derive(Debug, Clone)]
pub struct SymbolContext {
    pub main: Image,
}

/// `x` as a 64-bit address: reduced modulo 2^64.
pub open spec fn wrap64(x: int) -> u64 {
    (x % 0x1_0000_0000_0000_0000) as u64
}

/// The local address of a remote one: the address less the slide, modulo
/// 2^64.
pub open spec fn remote_to_local(remote_pc: u64, slide: i64) -> u64 {
    wrap64(remote_pc - slide)
}

/// The remote address of a local one: the address plus the slide, modulo
/// 2^64.
pub open spec fn local_to_remote(local_pc: u64, slide: i64) -> u64 {
    wrap64(local_pc + slide)
}

/// The slide of an image linked at `vmaddr_text` and seen at
/// `remote_text_base`: the one signed 64-bit number that, added to the first
/// modulo 2^64, gives the second.
pub open spec fn slide_between(vmaddr_text: u64, remote_text_base: u64) -> i64 {
    let distance = wrap64(remote_text_base - vmaddr_text);
    if distance < 0x8000_0000_0000_0000 {
        distance as i64
    } else {
        (distance - 0x1_0000_0000_0000_0000) as i64
    }
}

/// The distance of a slide from zero.
fn magnitude(slide: i64) -> (m: u64)
    ensures
        m == if slide < 0 {
            -slide
        } else {
            slide as int
        },
{
    if slide == i64::MIN {
        0x8000_0000_0000_0000u64
    } else if slide < 0 {
        (-slide) as u64
    } else {
        slide as u64
    }
}

/// Computes the slide of an image linked at `vmaddr_text` and seen at
/// `remote_text_base`.
pub fn slide_of(vmaddr_text: u64, remote_text_base: u64) -> (slide: i64)
    ensures
        slide == slide_between(vmaddr_text, remote_text_base),
{
    let distance = remote_text_base.wrapping_sub(vmaddr_text);
    if distance < 0x8000_0000_0000_0000u64 {
        distance as i64
    } else if distance == 0x8000_0000_0000_0000u64 {
        i64::MIN
    } else {
        let back: u64 = 0xffff_ffff_ffff_ffffu64 - distance + 1;
        -(back as i64)
    }
}

impl SymbolContext {
    /// Wraps an image.
    pub fn for_testing(main: Image) -> (ctx: SymbolContext)
        ensures
            ctx.main == main,
    {
        SymbolContext { main }
    }

    /// Sets the slide; nothing else changes.
    pub fn set_slide(&mut self, slide: i64)
        ensures
            final(self).main.slide == slide,
            final(self).main.vmaddr_text == old(self).main.vmaddr_text,
            final(self).main.name == old(self).main.name,
            final(self).main.path == old(self).main.path,
            final(self).main.uuid == old(self).main.uuid,
    {
        self.main.slide = slide;
    }

    /// The link-time address of a run-time address.
    pub fn translate_remote_pc(&self, remote_pc: u64) -> (local_pc: u64)
        ensures
            local_pc == remote_to_local(remote_pc, self.main.slide),
    {
        let m = magnitude(self.main.slide);
        if self.main.slide >= 0 {
            remote_pc.wrapping_sub(m)
        } else {
            remote_pc.wrapping_add(m)
        }
    }

    /// What `lookup` finds for the source location at a run-time address.
    /// The debug information is asked about the link-time address.
    pub fn symbolize_location<T, L: Fn(u64) -> T>(&self, remote_pc: u64, lookup: &L) -> (found: T)
        requires
            lookup.requires((remote_to_local(remote_pc, self.main.slide),)),
        ensures
            lookup.ensures((remote_to_local(remote_pc, self.main.slide),), found),
    {
        lookup(self.translate_remote_pc(remote_pc))
    }

    /// What `lookup` finds for the frames at a run-time address. The debug
    /// information is asked about the link-time address.
    pub fn symbolize_frames<T, L: Fn(u64) -> T>(&self, remote_pc: u64, lookup: &L) -> (found: T)
        requires
            lookup.requires((remote_to_local(remote_pc, self.main.slide),)),
        ensures
            lookup.ensures((remote_to_local(remote_pc, self.main.slide),), found),
    {
        lookup(self.translate_remote_pc(remote_pc))
    }

    /// The run-time address of a link-time address.
    pub fn local_to_remote(&self, local_pc: u64) -> (remote_pc: u64)
        ensures
            remote_pc == local_to_remote(local_pc, self.main.slide),
    {
        let m = magnitude(self.main.slide);
        if self.main.slide >= 0 {
            local_pc.wrapping_add(m)
        } else {
            local_pc.wrapping_sub(m)
        }
    }
}

/// Translating an address to local and back to remote gives the address,
/// and so does translating it to remote and back to local, for every
/// address and every slide.
pub proof fn lemma_translation_round_trip(pc: u64, slide: i64)
    ensures
        local_to_remote(remote_to_local(pc, slide), slide) == pc,
        remote_to_local(local_to_remote(pc, slide), slide) == pc,
{
}

/// The slide computed from an observed base carries the link-time base to
/// the observed one, and the observed one back.
pub proof fn lemma_slide_reaches_base(vmaddr_text: u64, remote_text_base: u64)
    ensures
        local_to_remote(vmaddr_text, slide_between(vmaddr_text, remote_text_base))
            == remote_text_base,
        remote_to_local(remote_text_base, slide_between(vmaddr_text, remote_text_base))
            == vmaddr_text,
{
}

} // verus!
