//! The fixed-size headers of a metadata blob and where each section lies.
//!
//! A blob is the metadata header, the declaration container and the
//! instance container. A container is a header, a filesystem-access block,
//! the service table and the capability table, in this order and without
//! gaps; the declaration container starts with a signature. Every offset in
//! a container's header counts from the start of that container.

use crate::codec::{
    le_bytes_u32, le_bytes_u64, le_u32_at, lemma_le_u32_at_part, lemma_le_u32_found, push_bytes,
    push_u32, push_u64, push_zeros, zeros,
};
use vstd::prelude::*;

verus! {

/// Size of the metadata header.
pub const META_SIZE: u32 = 0x80;

/// Size of the signature that starts the declaration container.
pub const SIGNATURE_SIZE: u32 = 0x100;

/// Size of the declaration header, without the signature.
pub const ACID_HEADER_SIZE: u32 = 0x140;

/// Size of the filesystem-access block of the declaration container.
pub const ACID_FAC_SIZE: u32 = 0x2c;

/// Size of the instance header.
pub const ACI_HEADER_SIZE: u32 = 0x40;

/// Size of the filesystem-access block of the instance container.
pub const ACI_FAC_SIZE: u32 = 0x1c;

/// Where the three blocks of a container lie, from the container's start.
#[derive(Debug, Clone, Copy)]
pub struct SectionLayout {
    pub fs_access_control_offset: u32,
    pub fs_access_control_size: u32,
    pub service_access_control_offset: u32,
    pub service_access_control_size: u32,
    pub kernel_access_control_offset: u32,
    pub kernel_access_control_size: u32,
}

impl SectionLayout {
    /// Each block starts where the one before it ends.
    pub open spec fn contiguous(&self) -> bool {
        &&& self.service_access_control_offset == self.fs_access_control_offset
            + self.fs_access_control_size
        &&& self.kernel_access_control_offset == self.service_access_control_offset
            + self.service_access_control_size
    }

    /// The offset just behind the last block.
    pub open spec fn end(&self) -> int {
        self.kernel_access_control_offset + self.kernel_access_control_size
    }

    /// The layout of a container whose first block starts at `start`.
    pub open spec fn of(start: u32, fac_size: u32, sac_size: u32, kac_size: u32) -> SectionLayout {
        SectionLayout {
            fs_access_control_offset: start,
            fs_access_control_size: fac_size,
            service_access_control_offset: (start + fac_size) as u32,
            service_access_control_size: sac_size,
            kernel_access_control_offset: (start + fac_size + sac_size) as u32,
            kernel_access_control_size: kac_size,
        }
    }

    /// The six numbers as they stand in a header.
    pub open spec fn bytes(&self) -> Seq<u8> {
        le_bytes_u32(self.fs_access_control_offset) + le_bytes_u32(self.fs_access_control_size)
            + le_bytes_u32(self.service_access_control_offset) + le_bytes_u32(
            self.service_access_control_size,
        ) + le_bytes_u32(self.kernel_access_control_offset) + le_bytes_u32(
            self.kernel_access_control_size,
        )
    }

    /// Lays out a container whose first block starts at `start`: the
    /// filesystem-access block, then `sac_bytes` of service table, then
    /// `kac_bytes` of capability table. `None` if the end of the last block
    /// does not fit in 32 bits.
    pub fn new(start: u32, fac_size: u32, sac_bytes: usize, kac_bytes: usize) -> (r: Option<SectionLayout>)
        ensures
            match r {
                Some(layout) => {
                    &&& start + fac_size + sac_bytes + kac_bytes <= u32::MAX
                    &&& layout == SectionLayout::of(start, fac_size, sac_bytes as u32, kac_bytes as u32)
                    &&& layout.contiguous()
                    &&& layout.end() == start + fac_size + sac_bytes + kac_bytes
                },
                None => start + fac_size + sac_bytes + kac_bytes > u32::MAX,
            },
    {
        let limit: u64 = 0xffff_ffff;
        if sac_bytes as u64 > limit || kac_bytes as u64 > limit {
            return None;
        }
        let end: u64 = start as u64 + fac_size as u64 + sac_bytes as u64 + kac_bytes as u64;
        if end > limit {
            return None;
        }
        Some(
            SectionLayout {
                fs_access_control_offset: start,
                fs_access_control_size: fac_size,
                service_access_control_offset: start + fac_size,
                service_access_control_size: sac_bytes as u32,
                kernel_access_control_offset: start + fac_size + sac_bytes as u32,
                kernel_access_control_size: kac_bytes as u32,
            },
        )
    }

    /// Appends the six numbers.
    pub fn write(&self, out: &mut Vec<u8>)
        ensures
            final(out)@ == old(out)@ + self.bytes(),
    {
        push_u32(out, self.fs_access_control_offset);
        push_u32(out, self.fs_access_control_size);
        push_u32(out, self.service_access_control_offset);
        push_u32(out, self.service_access_control_size);
        push_u32(out, self.kernel_access_control_offset);
        push_u32(out, self.kernel_access_control_size);
        assert(out@ =~= old(out)@ + self.bytes());
    }

    /// The layout that stands at index `at` of `bytes`.
    pub open spec fn read(bytes: Seq<u8>, at: int) -> SectionLayout {
        SectionLayout {
            fs_access_control_offset: le_u32_at(bytes, at),
            fs_access_control_size: le_u32_at(bytes, at + 4),
            service_access_control_offset: le_u32_at(bytes, at + 8),
            service_access_control_size: le_u32_at(bytes, at + 12),
            kernel_access_control_offset: le_u32_at(bytes, at + 16),
            kernel_access_control_size: le_u32_at(bytes, at + 20),
        }
    }

    /// A layout that was written at index `at` is read back from there.
    pub proof fn lemma_read_back(self, bytes: Seq<u8>, at: int)
        requires
            0 <= at,
            at + 24 <= bytes.len(),
            bytes.subrange(at, at + 24) == self.bytes(),
        ensures
            SectionLayout::read(bytes, at) == self,
    {
        let part = self.bytes();
        assert(part.len() == 24);
        assert(part.subrange(0, 4) =~= le_bytes_u32(self.fs_access_control_offset));
        assert(part.subrange(4, 8) =~= le_bytes_u32(self.fs_access_control_size));
        assert(part.subrange(8, 12) =~= le_bytes_u32(self.service_access_control_offset));
        assert(part.subrange(12, 16) =~= le_bytes_u32(self.service_access_control_size));
        assert(part.subrange(16, 20) =~= le_bytes_u32(self.kernel_access_control_offset));
        assert(part.subrange(20, 24) =~= le_bytes_u32(self.kernel_access_control_size));
        let whole = bytes.subrange(at, at + 24);
        assert(bytes.subrange(at, at + 4) =~= whole.subrange(0, 4));
        assert(bytes.subrange(at + 4, at + 8) =~= whole.subrange(4, 8));
        assert(bytes.subrange(at + 8, at + 12) =~= whole.subrange(8, 12));
        assert(bytes.subrange(at + 12, at + 16) =~= whole.subrange(12, 16));
        assert(bytes.subrange(at + 16, at + 20) =~= whole.subrange(16, 20));
        assert(bytes.subrange(at + 20, at + 24) =~= whole.subrange(20, 24));
        lemma_le_u32_found(bytes, at, self.fs_access_control_offset);
        lemma_le_u32_found(bytes, at + 4, self.fs_access_control_size);
        lemma_le_u32_found(bytes, at + 8, self.service_access_control_offset);
        lemma_le_u32_found(bytes, at + 12, self.service_access_control_size);
        lemma_le_u32_found(bytes, at + 16, self.kernel_access_control_offset);
        lemma_le_u32_found(bytes, at + 20, self.kernel_access_control_size);
    }

    /// A layout is read from a part of a sequence as it is read from the
    /// part alone.
    pub proof fn lemma_read_part(whole: Seq<u8>, offset: int, part: Seq<u8>, at: int)
        requires
            0 <= offset,
            offset + part.len() <= whole.len(),
            whole.subrange(offset, offset + part.len()) == part,
            0 <= at,
            at + 24 <= part.len(),
        ensures
            SectionLayout::read(whole, offset + at) == SectionLayout::read(part, at),
    {
        lemma_le_u32_at_part(whole, offset, part, at);
        lemma_le_u32_at_part(whole, offset, part, at + 4);
        lemma_le_u32_at_part(whole, offset, part, at + 8);
        lemma_le_u32_at_part(whole, offset, part, at + 12);
        lemma_le_u32_at_part(whole, offset, part, at + 16);
        lemma_le_u32_at_part(whole, offset, part, at + 20);
    }
}

/// The offsets and sizes of the two containers, as the metadata header of
/// a blob gives them.
pub struct ContainerTable {
    pub aci_offset: u32,
    pub aci_size: u32,
    pub acid_offset: u32,
    pub acid_size: u32,
}

impl ContainerTable {
    /// The table that stands in the metadata header at the start of
    /// `blob`.
    pub open spec fn read(blob: Seq<u8>) -> ContainerTable {
        ContainerTable {
            aci_offset: le_u32_at(blob, 0x70),
            aci_size: le_u32_at(blob, 0x74),
            acid_offset: le_u32_at(blob, 0x78),
            acid_size: le_u32_at(blob, 0x7c),
        }
    }

    /// The declaration container follows the metadata header, the instance
    /// container follows the declaration container, and a blob of `len`
    /// bytes ends with it.
    pub open spec fn fills(self, len: nat) -> bool {
        &&& self.acid_offset == 0x80
        &&& self.aci_offset == self.acid_offset + self.acid_size
        &&& self.aci_offset + self.aci_size == len
    }
}

/// The metadata header, without its reserved fields, which are zero.
#[derive(Debug, Clone, Copy)]
pub struct Meta {
    pub signature_key_generation: u32,
    pub flags: u8,
    pub main_thread_priority: u8,
    pub main_thread_core_number: u8,
    pub system_resource_size: u32,
    pub version: u32,
    pub main_thread_stack_size: u32,
    pub name: [u8; 16],
    pub product_code: [u8; 16],
    pub aci_offset: u32,
    pub aci_size: u32,
    pub acid_offset: u32,
    pub acid_size: u32,
}

/// The bytes `META`.
pub open spec fn meta_magic() -> Seq<u8> {
    seq![0x4du8, 0x45u8, 0x54u8, 0x41u8]
}

/// The bytes `ACID`.
pub open spec fn acid_magic() -> Seq<u8> {
    seq![0x41u8, 0x43u8, 0x49u8, 0x44u8]
}

/// The bytes `ACI0`.
pub open spec fn aci_magic() -> Seq<u8> {
    seq![0x41u8, 0x43u8, 0x49u8, 0x30u8]
}

/// A [`Meta`] with its two texts as sequences of bytes.
pub struct MetaModel {
    pub signature_key_generation: u32,
    pub flags: u8,
    pub main_thread_priority: u8,
    pub main_thread_core_number: u8,
    pub system_resource_size: u32,
    pub version: u32,
    pub main_thread_stack_size: u32,
    pub name: Seq<u8>,
    pub product_code: Seq<u8>,
    pub aci_offset: u32,
    pub aci_size: u32,
    pub acid_offset: u32,
    pub acid_size: u32,
}

impl View for Meta {
    type V = MetaModel;

    open spec fn view(&self) -> MetaModel {
        MetaModel {
            signature_key_generation: self.signature_key_generation,
            flags: self.flags,
            main_thread_priority: self.main_thread_priority,
            main_thread_core_number: self.main_thread_core_number,
            system_resource_size: self.system_resource_size,
            version: self.version,
            main_thread_stack_size: self.main_thread_stack_size,
            name: self.name@,
            product_code: self.product_code@,
            aci_offset: self.aci_offset,
            aci_size: self.aci_size,
            acid_offset: self.acid_offset,
            acid_size: self.acid_size,
        }
    }
}

impl MetaModel {
    /// Whether the two texts have their 16 bytes each.
    pub open spec fn well_formed(self) -> bool {
        self.name.len() == 16 && self.product_code.len() == 16
    }

    /// The 128 bytes of the header.
    pub open spec fn bytes(self) -> Seq<u8> {
        meta_magic() + le_bytes_u32(self.signature_key_generation) + zeros(4) + seq![
            self.flags,
            0u8,
            self.main_thread_priority,
            self.main_thread_core_number,
        ] + zeros(4) + le_bytes_u32(self.system_resource_size) + le_bytes_u32(self.version)
            + le_bytes_u32(self.main_thread_stack_size) + self.name + self.product_code + zeros(0x30)
            + le_bytes_u32(self.aci_offset) + le_bytes_u32(self.aci_size) + le_bytes_u32(
            self.acid_offset,
        ) + le_bytes_u32(self.acid_size)
    }

    /// The header is 128 bytes long and ends with the offsets and sizes of
    /// the two containers.
    pub proof fn lemma_bytes(self)
        requires
            self.well_formed(),
        ensures
            self.bytes().len() == 0x80,
            le_u32_at(self.bytes(), 0x70) == self.aci_offset,
            le_u32_at(self.bytes(), 0x74) == self.aci_size,
            le_u32_at(self.bytes(), 0x78) == self.acid_offset,
            le_u32_at(self.bytes(), 0x7c) == self.acid_size,
    {
        let b = self.bytes();
        assert(b.len() == 0x80);
        assert(b.subrange(0x70, 0x74) =~= le_bytes_u32(self.aci_offset));
        assert(b.subrange(0x74, 0x78) =~= le_bytes_u32(self.aci_size));
        assert(b.subrange(0x78, 0x7c) =~= le_bytes_u32(self.acid_offset));
        assert(b.subrange(0x7c, 0x80) =~= le_bytes_u32(self.acid_size));
        lemma_le_u32_found(b, 0x70, self.aci_offset);
        lemma_le_u32_found(b, 0x74, self.aci_size);
        lemma_le_u32_found(b, 0x78, self.acid_offset);
        lemma_le_u32_found(b, 0x7c, self.acid_size);
    }
}

impl Meta {
    /// Appends the header.
    pub fn write(&self, out: &mut Vec<u8>)
        ensures
            final(out)@ == old(out)@ + self@.bytes(),
            self@.well_formed(),
    {
        out.push(0x4d);
        out.push(0x45);
        out.push(0x54);
        out.push(0x41);
        push_u32(out, self.signature_key_generation);
        push_zeros(out, 4);
        out.push(self.flags);
        out.push(0);
        out.push(self.main_thread_priority);
        out.push(self.main_thread_core_number);
        push_zeros(out, 4);
        push_u32(out, self.system_resource_size);
        push_u32(out, self.version);
        push_u32(out, self.main_thread_stack_size);
        push_bytes(out, self.name.as_slice());
        push_bytes(out, self.product_code.as_slice());
        push_zeros(out, 0x30);
        push_u32(out, self.aci_offset);
        push_u32(out, self.aci_size);
        push_u32(out, self.acid_offset);
        push_u32(out, self.acid_size);
        assert(out@ =~= old(out)@ + self@.bytes());
    }
}

/// The declaration header, without its reserved fields, which are zero, and
/// without the signature that stands before it.
#[derive(Debug, Clone, Copy)]
pub struct Acid {
    pub rsa_nca_pubkey: [u8; 256],
    pub signed_size: u32,
    pub flags: u32,
    pub program_id_range_min: u64,
    pub program_id_range_max: u64,
    pub layout: SectionLayout,
}

/// An [`Acid`] with its key as a sequence of bytes.
pub struct AcidModel {
    pub rsa_nca_pubkey: Seq<u8>,
    pub signed_size: u32,
    pub flags: u32,
    pub program_id_range_min: u64,
    pub program_id_range_max: u64,
    pub layout: SectionLayout,
}

impl View for Acid {
    type V = AcidModel;

    open spec fn view(&self) -> AcidModel {
        AcidModel {
            rsa_nca_pubkey: self.rsa_nca_pubkey@,
            signed_size: self.signed_size,
            flags: self.flags,
            program_id_range_min: self.program_id_range_min,
            program_id_range_max: self.program_id_range_max,
            layout: self.layout,
        }
    }
}

impl AcidModel {
    /// Whether the key has its 256 bytes.
    pub open spec fn well_formed(self) -> bool {
        self.rsa_nca_pubkey.len() == 0x100
    }

    /// The 320 bytes of the header.
    pub open spec fn bytes(self) -> Seq<u8> {
        self.rsa_nca_pubkey + acid_magic() + le_bytes_u32(self.signed_size) + zeros(4) + le_bytes_u32(
            self.flags,
        ) + le_bytes_u64(self.program_id_range_min) + le_bytes_u64(self.program_id_range_max)
            + self.layout.bytes() + zeros(8)
    }

    /// The header is 320 bytes long; the signed size stands at 0x104 and
    /// the layout at 0x120.
    pub proof fn lemma_bytes(self)
        requires
            self.well_formed(),
        ensures
            self.bytes().len() == 0x140,
            le_u32_at(self.bytes(), 0x104) == self.signed_size,
            self.bytes().subrange(0x120, 0x138) == self.layout.bytes(),
    {
        let b = self.bytes();
        assert(self.layout.bytes().len() == 24);
        assert(b.len() == 0x140);
        assert(b.subrange(0x104, 0x108) =~= le_bytes_u32(self.signed_size));
        lemma_le_u32_found(b, 0x104, self.signed_size);
        assert(b.subrange(0x120, 0x138) =~= self.layout.bytes());
    }
}

impl Acid {
    /// Appends the header.
    pub fn write(&self, out: &mut Vec<u8>)
        ensures
            final(out)@ == old(out)@ + self@.bytes(),
            self@.well_formed(),
    {
        push_bytes(out, self.rsa_nca_pubkey.as_slice());
        out.push(0x41);
        out.push(0x43);
        out.push(0x49);
        out.push(0x44);
        push_u32(out, self.signed_size);
        push_zeros(out, 4);
        push_u32(out, self.flags);
        push_u64(out, self.program_id_range_min);
        push_u64(out, self.program_id_range_max);
        self.layout.write(out);
        push_zeros(out, 8);
        assert(out@ =~= old(out)@ + self@.bytes());
    }
}

/// The instance header, without its reserved fields, which are zero.
#[derive(Debug, Clone, Copy)]
pub struct Aci {
    pub program_id: u64,
    pub layout: SectionLayout,
}

impl Aci {
    /// The 64 bytes of the header.
    pub open spec fn bytes(&self) -> Seq<u8> {
        aci_magic() + zeros(12) + le_bytes_u64(self.program_id) + zeros(8) + self.layout.bytes()
            + zeros(8)
    }

    /// Appends the header.
    pub fn write(&self, out: &mut Vec<u8>)
        ensures
            final(out)@ == old(out)@ + self.bytes(),
    {
        out.push(0x41);
        out.push(0x43);
        out.push(0x49);
        out.push(0x30);
        push_zeros(out, 12);
        push_u64(out, self.program_id);
        push_zeros(out, 8);
        self.layout.write(out);
        push_zeros(out, 8);
        assert(out@ =~= old(out)@ + self.bytes());
    }

    /// The header is 64 bytes long; the layout stands at 0x20.
    pub proof fn lemma_bytes(self)
        ensures
            self.bytes().len() == 0x40,
            self.bytes().subrange(0x20, 0x38) == self.layout.bytes(),
    {
        let b = self.bytes();
        assert(self.layout.bytes().len() == 24);
        assert(b.len() == 0x40);
        assert(b.subrange(0x20, 0x38) =~= self.layout.bytes());
    }
}

/// The filesystem-access block of the declaration container: version 1, no
/// owner identifiers, the permission bits, and four empty identifier
/// bounds.
pub open spec fn acid_fs_access_control(flags: u64) -> Seq<u8> {
    seq![1u8, 0u8, 0u8, 0u8] + le_bytes_u64(flags) + zeros(32)
}

/// The filesystem-access block of the instance container: version 1, the
/// permission bits, and two empty owner tables that both start at 0x1c.
pub open spec fn aci_fs_access_control(flags: u64) -> Seq<u8> {
    seq![1u8, 0u8, 0u8, 0u8] + le_bytes_u64(flags) + le_bytes_u32(0x1c) + le_bytes_u32(0)
        + le_bytes_u32(0x1c) + le_bytes_u32(0)
}

/// Appends the filesystem-access block of the declaration container.
pub fn write_acid_fs_access_control(out: &mut Vec<u8>, flags: u64)
    ensures
        final(out)@ == old(out)@ + acid_fs_access_control(flags),
        acid_fs_access_control(flags).len() == 0x2c,
{
    out.push(1);
    out.push(0);
    out.push(0);
    out.push(0);
    push_u64(out, flags);
    push_zeros(out, 32);
    assert(out@ =~= old(out)@ + acid_fs_access_control(flags));
}

/// Appends the filesystem-access block of the instance container.
pub fn write_aci_fs_access_control(out: &mut Vec<u8>, flags: u64)
    ensures
        final(out)@ == old(out)@ + aci_fs_access_control(flags),
        aci_fs_access_control(flags).len() == 0x1c,
{
    out.push(1);
    out.push(0);
    out.push(0);
    out.push(0);
    push_u64(out, flags);
    push_u32(out, 0x1c);
    push_u32(out, 0);
    push_u32(out, 0x1c);
    push_u32(out, 0);
    assert(out@ =~= old(out)@ + aci_fs_access_control(flags));
}

} // verus!
