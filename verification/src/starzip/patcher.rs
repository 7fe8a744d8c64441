//! Writes patches into a ROM image held in memory.

use vstd::prelude::*;

verus! {

/// Offset of the boot hook in the ROM image.
pub const BOOT_HOOK_OFFSET: usize = 0x1000;

/// A ROM image and the layout that describes it.
pub struct StarzipPatcher<L> {
    layout: L,
    rom: Vec<u8>,
}

impl<L> StarzipPatcher<L> {
    /// The ROM image as it stands.
    pub closed spec fn rom_bytes(&self) -> Seq<u8> {
        self.rom@
    }

    /// The layout the patcher was made with.
    pub closed spec fn layout_of(&self) -> L {
        self.layout
    }

    /// A patcher over `rom`, described by `layout`.
    pub fn from_rom(rom: Vec<u8>, layout: L) -> (p: Self)
        ensures
            p.rom_bytes() == rom@,
            p.layout_of() == layout,
    {
        StarzipPatcher { layout, rom }
    }

    /// Replacing a file by its layout entry is not carried out yet: the ROM
    /// is left as it is and the call succeeds.
    pub fn replace_file(&mut self, path: &str, data: &[u8]) -> (r: Result<(), String>)
        ensures
            r is Ok,
            final(self).rom_bytes() == old(self).rom_bytes(),
            final(self).layout_of() == old(self).layout_of(),
    {
        Ok(())
    }

    /// Writes the hook bytes into the ROM at the boot hook offset.
    pub fn inject_boot_hook(&mut self, hook_bytes: &[u8]) -> (r: Result<(), String>)
        requires
            BOOT_HOOK_OFFSET + hook_bytes@.len() <= old(self).rom_bytes().len(),
        ensures
            r is Ok,
            final(self).rom_bytes() == old(self).rom_bytes().take(BOOT_HOOK_OFFSET as int) + hook_bytes@
                + old(self).rom_bytes().skip(BOOT_HOOK_OFFSET + hook_bytes@.len()),
            final(self).layout_of() == old(self).layout_of(),
    {
        let ghost before = self.rom@;
        let mut i: usize = 0;
        while i < hook_bytes.len()
            invariant
                BOOT_HOOK_OFFSET + hook_bytes@.len() <= before.len(),
                hook_bytes@.len() == hook_bytes.len(),
                i <= hook_bytes@.len(),
                self.rom@.len() == before.len(),
                self.rom.len() == before.len(),
                forall|k: int|
                    0 <= k < self.rom@.len() ==> #[trigger] self.rom@[k] == if BOOT_HOOK_OFFSET <= k
                        < BOOT_HOOK_OFFSET + i {
                        hook_bytes@[k - BOOT_HOOK_OFFSET]
                    } else {
                        before[k]
                    },
                self.layout == old(self).layout,
            decreases hook_bytes@.len() - i,
        {
            self.rom.set(BOOT_HOOK_OFFSET + i, hook_bytes[i]);
            i = i + 1;
        }
        assert(self.rom@ =~= before.take(BOOT_HOOK_OFFSET as int) + hook_bytes@ + before.skip(
            BOOT_HOOK_OFFSET + hook_bytes@.len(),
        ));
        Ok(())
    }

    /// The patched ROM image.
    pub fn into_rom(self) -> (rom: Vec<u8>)
        ensures
            rom@ == self.rom_bytes(),
    {
        self.rom
    }
}

} // verus!
