//! What the headers of a blob say of it.
//!
//! The offsets and sizes that stand in the three headers are read back from
//! the bytes of the blob. They bound ranges that follow each other without a
//! gap and end with the blob, and the ranges hold the sections that were
//! encoded.

use crate::blob::{DeclarationSource, SectionsModel};
use crate::codec::{le_bytes_words, le_u32_at, lemma_le_bytes_words_len, lemma_le_u32_at_part};
use crate::descriptor::Npdm;
use crate::layout::{
    Aci, aci_fs_access_control, acid_fs_access_control, ContainerTable, SectionLayout,
};
use vstd::prelude::*;

verus! {

/// The three blocks of a container, as they are cut out of a blob.
pub struct ContainerSections {
    pub fs_access_control: Seq<u8>,
    pub service_table: Seq<u8>,
    pub capability_table: Seq<u8>,
}

/// The sections of the container that starts at `start`, cut out of the
/// blob as the layout says.
pub open spec fn sections_at(blob: Seq<u8>, start: int, layout: SectionLayout) -> ContainerSections {
    ContainerSections {
        fs_access_control: blob.subrange(
            start + layout.fs_access_control_offset,
            start + layout.service_access_control_offset,
        ),
        service_table: blob.subrange(
            start + layout.service_access_control_offset,
            start + layout.kernel_access_control_offset,
        ),
        capability_table: blob.subrange(start + layout.kernel_access_control_offset, start + layout.end()),
    }
}

impl Npdm {
    /// The capability table takes four bytes for each capability word.
    pub proof fn lemma_capability_table_len(&self)
        requires
            self.sections() is Ok,
        ensures
            self.capability_words() is Ok,
            self.sections()->Ok_0.capability_table.len() == 4 * self.capability_words()->Ok_0.len(),
    {
        lemma_le_bytes_words_len(self.capability_words()->Ok_0);
    }

    /// The instance container of a blob: its header gives a layout that
    /// starts behind the header, has no gaps and ends with the container,
    /// and the sections that it bounds are the filesystem-access block, the
    /// service table and the capability table.
    pub proof fn lemma_instance_layout(&self, s: SectionsModel)
        requires
            s.aci_size() <= u32::MAX,
        ensures
            self.instance(s).len() == s.aci_size(),
            ({
                let layout = SectionLayout::read(self.instance(s), 0x20);
                let found = sections_at(self.instance(s), 0, layout);
                &&& layout == s.aci_layout()
                &&& layout.fs_access_control_offset == 0x40
                &&& layout.contiguous()
                &&& layout.end() == s.aci_size()
                &&& layout.service_access_control_size == s.service_table.len()
                &&& layout.kernel_access_control_size == s.capability_table.len()
                &&& found.fs_access_control == aci_fs_access_control(self.fs_access_control.flags.0)
                &&& found.service_table == s.service_table
                &&& found.capability_table == s.capability_table
            }),
    {
        let header = Aci { program_id: self.program_id.0, layout: s.aci_layout() };
        let fac = aci_fs_access_control(self.fs_access_control.flags.0);
        let whole = self.instance(s);
        header.lemma_bytes();
        assert(fac.len() == 0x1c);
        assert(whole.subrange(0, 0x40) =~= header.bytes());
        lemma_le_u32_words_at(whole, header, s.aci_layout());
        let layout = SectionLayout::read(whole, 0x20);
        let found = sections_at(whole, 0, layout);
        assert(found.fs_access_control =~= fac);
        assert(found.service_table =~= s.service_table);
        assert(found.capability_table =~= s.capability_table);
    }

    /// A built declaration container without its signature: its header
    /// gives the size of what is signed and a layout that, counted from the
    /// start of the signature, starts behind the header, has no gaps and
    /// ends with the container.
    pub proof fn lemma_declaration_layout(&self, s: SectionsModel)
        requires
            s.acid_size() <= u32::MAX,
            s.developer_key.len() == 0x100,
        ensures
            self.declaration_body(s).len() + 0x100 == s.acid_size(),
            le_u32_at(self.declaration_body(s), 0x104) == s.acid_size() - 0x100,
            ({
                let layout = SectionLayout::read(self.declaration_body(s), 0x120);
                let found = sections_at(self.declaration_body(s), -0x100, layout);
                &&& layout == s.acid_layout()
                &&& layout.fs_access_control_offset == 0x240
                &&& layout.contiguous()
                &&& layout.end() == s.acid_size()
                &&& layout.service_access_control_size == s.service_table.len()
                &&& layout.kernel_access_control_size == s.capability_table.len()
                &&& found.fs_access_control == acid_fs_access_control(self.fs_access_control.flags.0)
                &&& found.service_table == s.service_table
                &&& found.capability_table == s.capability_table
            }),
    {
        let header = self.acid_model(s);
        let fac = acid_fs_access_control(self.fs_access_control.flags.0);
        let whole = self.declaration_body(s);
        header.lemma_bytes();
        assert(fac.len() == 0x2c);
        assert(whole.subrange(0, 0x140) =~= header.bytes());
        lemma_le_u32_at_part(whole, 0, header.bytes(), 0x104);
        SectionLayout::lemma_read_part(whole, 0, header.bytes(), 0x120);
        s.acid_layout().lemma_read_back(header.bytes(), 0x120);
        let layout = SectionLayout::read(whole, 0x120);
        let found = sections_at(whole, -0x100, layout);
        assert(found.fs_access_control =~= fac);
        assert(found.service_table =~= s.service_table);
        assert(found.capability_table =~= s.capability_table);
    }

    /// The layout of a blob. The metadata header gives the offsets and
    /// sizes of the two containers; they follow each other without a gap
    /// and end with the blob. The declaration container is the one that the
    /// blob was put together around, and the instance container is
    /// [`Npdm::instance`].
    pub proof fn lemma_blob_layout(&self, s: SectionsModel, declaration: Seq<u8>)
        requires
            self.assembled(s, declaration) is Ok,
        ensures
            ({
                let blob = self.blob(s, declaration);
                let table = ContainerTable::read(blob);
                &&& table.fills(blob.len())
                &&& table.acid_size == declaration.len()
                &&& table.aci_size == s.aci_size()
                &&& blob.subrange(table.acid_offset as int, table.aci_offset as int) == declaration
                &&& blob.subrange(table.aci_offset as int, blob.len() as int) == self.instance(s)
            }),
    {
        let blob = self.blob(s, declaration);
        let meta = self.meta_model(s.meta_flags, declaration.len() as u32, s.aci_size() as u32);
        meta.lemma_bytes();
        self.lemma_instance_layout(s);
        assert(blob.subrange(0, 0x80) =~= meta.bytes());
        lemma_le_u32_at_part(blob, 0, meta.bytes(), 0x70);
        lemma_le_u32_at_part(blob, 0, meta.bytes(), 0x74);
        lemma_le_u32_at_part(blob, 0, meta.bytes(), 0x78);
        lemma_le_u32_at_part(blob, 0, meta.bytes(), 0x7c);
        let table = ContainerTable::read(blob);
        assert(blob.subrange(table.acid_offset as int, table.aci_offset as int) =~= declaration);
        assert(blob.subrange(table.aci_offset as int, blob.len() as int) =~= self.instance(s));
    }

    /// The layout of a blob with a built declaration container. The
    /// signature stands behind the metadata header. The header of either
    /// container gives a layout that starts behind the header, has no gaps
    /// and ends with the container, and the sections that it bounds are the
    /// two tables.
    pub proof fn lemma_built_blob_layout(&self, s: SectionsModel, signature: Seq<u8>)
        requires
            signature.len() == 0x100,
            s.developer_key.len() == 0x100,
            0x80 + s.acid_size() <= u32::MAX,
        ensures
            ({
                let blob = self.blob(s, signature + self.declaration_body(s));
                let table = ContainerTable::read(blob);
                let declared = SectionLayout::read(blob, table.acid_offset + 0x220);
                let granted = SectionLayout::read(blob, table.aci_offset + 0x20);
                &&& table.fills(blob.len())
                &&& table.acid_size == s.acid_size()
                &&& table.aci_size == s.aci_size()
                &&& blob.subrange(0x80, 0x180) == signature
                &&& le_u32_at(blob, 0x284) == table.acid_size - 0x100
                &&& declared == s.acid_layout()
                &&& declared.fs_access_control_offset == 0x240
                &&& declared.contiguous()
                &&& declared.end() == table.acid_size
                &&& granted == s.aci_layout()
                &&& granted.fs_access_control_offset == 0x40
                &&& granted.contiguous()
                &&& granted.end() == table.aci_size
                &&& declared.service_access_control_size == s.service_table.len()
                &&& granted.service_access_control_size == s.service_table.len()
                &&& declared.kernel_access_control_size == s.capability_table.len()
                &&& granted.kernel_access_control_size == s.capability_table.len()
                &&& sections_at(blob, table.acid_offset as int, declared).service_table == s.service_table
                &&& sections_at(blob, table.acid_offset as int, declared).capability_table
                    == s.capability_table
                &&& sections_at(blob, table.aci_offset as int, granted).service_table == s.service_table
                &&& sections_at(blob, table.aci_offset as int, granted).capability_table
                    == s.capability_table
            }),
    {
        let body = self.declaration_body(s);
        let declaration = signature + body;
        let blob = self.blob(s, declaration);
        let instance = self.instance(s);
        self.lemma_declaration_layout(s);
        self.lemma_instance_layout(s);
        self.lemma_blob_layout(s, declaration);
        let table = ContainerTable::read(blob);
        assert(blob.subrange(0x80, 0x180) =~= signature) by {
            assert(blob.subrange(0x80, 0x80 + declaration.len() as int) == declaration);
            assert forall|i: int| 0 <= i < 0x100 implies blob[0x80 + i] == signature[i] by {
                assert(blob.subrange(0x80, 0x80 + declaration.len() as int)[i] == blob[0x80 + i]);
            }
        }
        assert(blob.subrange(0x180, 0x180 + body.len() as int) =~= body) by {
            assert(blob.subrange(0x80, 0x80 + declaration.len() as int) == declaration);
            assert forall|i: int| 0 <= i < body.len() implies blob[0x180 + i] == body[i] by {
                assert(blob.subrange(0x80, 0x80 + declaration.len() as int)[0x100 + i] == blob[0x180 + i]);
            }
        }
        lemma_le_u32_at_part(blob, 0x180, body, 0x104);
        SectionLayout::lemma_read_part(blob, 0x180, body, 0x120);
        SectionLayout::lemma_read_part(blob, table.aci_offset as int, instance, 0x20);
        let declared = s.acid_layout();
        let granted = s.aci_layout();
        lemma_sections_at_part(blob, 0x180, body, -0x100, declared);
        lemma_sections_at_part(blob, table.aci_offset as int, instance, 0, granted);
    }

    /// Every size in a header is the number of bytes that were written for
    /// the section. In a blob with a built declaration container, the
    /// capability table of either container holds the capability words and
    /// takes four bytes for each, the service table is the same in both,
    /// and the sizes of the containers in the metadata header are the sums
    /// of the sizes of their sections.
    pub proof fn lemma_built_image(&self, signature: Seq<u8>)
        requires
            signature.len() == 0x100,
            self.image(DeclarationSource::Built(signature)) is Ok,
        ensures
            self.capability_words() is Ok,
            self.sections() is Ok,
            ({
                let blob = self.image(DeclarationSource::Built(signature))->Ok_0;
                let words = self.capability_words()->Ok_0;
                let s = self.sections()->Ok_0;
                let table = ContainerTable::read(blob);
                let declared = SectionLayout::read(blob, table.acid_offset + 0x220);
                let granted = SectionLayout::read(blob, table.aci_offset + 0x20);
                &&& blob == self.blob(s, signature + self.declaration_body(s))
                &&& table.fills(blob.len())
                &&& blob.subrange(0x80, 0x180) == signature
                &&& le_u32_at(blob, 0x284) == table.acid_size - 0x100
                &&& declared.fs_access_control_offset == 0x240
                &&& declared.contiguous()
                &&& declared.end() == table.acid_size
                &&& granted.fs_access_control_offset == 0x40
                &&& granted.contiguous()
                &&& granted.end() == table.aci_size
                &&& declared.service_access_control_size == granted.service_access_control_size
                &&& declared.kernel_access_control_size == 4 * words.len()
                &&& granted.kernel_access_control_size == 4 * words.len()
                &&& table.acid_size == 0x26c + granted.service_access_control_size + 4 * words.len()
                &&& table.aci_size == 0x5c + granted.service_access_control_size + 4 * words.len()
                &&& sections_at(blob, table.acid_offset as int, declared).service_table == s.service_table
                &&& sections_at(blob, table.acid_offset as int, declared).capability_table == le_bytes_words(
                    words,
                )
                &&& sections_at(blob, table.aci_offset as int, granted).service_table == s.service_table
                &&& sections_at(blob, table.aci_offset as int, granted).capability_table == le_bytes_words(
                    words,
                )
            }),
    {
        let s = self.sections()->Ok_0;
        let words = self.capability_words()->Ok_0;
        lemma_le_bytes_words_len(words);
        self.lemma_developer_key_len();
        assert((signature + self.declaration_body(s)).len() == 0x100 + self.declaration_body(s).len());
        self.lemma_declaration_layout(s);
        self.lemma_built_blob_layout(s, signature);
    }

    /// The layout of a blob around a declaration container that was taken
    /// as it is: the container stands behind the metadata header, byte for
    /// byte, and the instance container behind it is laid out as in a blob
    /// with a built declaration container.
    pub proof fn lemma_reused_image(&self, acid: Seq<u8>)
        requires
            self.image(DeclarationSource::Reused(acid)) is Ok,
        ensures
            ({
                let blob = self.image(DeclarationSource::Reused(acid))->Ok_0;
                let words = self.capability_words()->Ok_0;
                let s = self.sections()->Ok_0;
                let table = ContainerTable::read(blob);
                let granted = SectionLayout::read(blob, table.aci_offset + 0x20);
                &&& self.capability_words() is Ok
                &&& table.fills(blob.len())
                &&& table.acid_size == acid.len()
                &&& blob.subrange(table.acid_offset as int, table.aci_offset as int) == acid
                &&& granted.fs_access_control_offset == 0x40
                &&& granted.contiguous()
                &&& granted.end() == table.aci_size
                &&& granted.kernel_access_control_size == 4 * words.len()
                &&& sections_at(blob, table.aci_offset as int, granted).service_table == s.service_table
                &&& sections_at(blob, table.aci_offset as int, granted).capability_table == le_bytes_words(
                    words,
                )
            }),
    {
        let s = self.sections()->Ok_0;
        let words = self.capability_words()->Ok_0;
        let blob = self.blob(s, acid);
        lemma_le_bytes_words_len(words);
        self.lemma_instance_layout(s);
        self.lemma_blob_layout(s, acid);
        let table = ContainerTable::read(blob);
        let instance = self.instance(s);
        SectionLayout::lemma_read_part(blob, table.aci_offset as int, instance, 0x20);
        lemma_sections_at_part(blob, table.aci_offset as int, instance, 0, s.aci_layout());
    }

    /// The public key of the declaration header has 256 bytes.
    pub proof fn lemma_developer_key_len(&self)
        ensures
            self.developer_key_bytes() matches Ok(key) ==> key.len() == 0x100,
            self.sections() matches Ok(s) ==> s.developer_key.len() == 0x100,
    {
    }
}

proof fn lemma_le_u32_words_at(whole: Seq<u8>, header: Aci, layout: SectionLayout)
    requires
        header.layout == layout,
        whole.len() >= 0x40,
        whole.subrange(0, 0x40) == header.bytes(),
    ensures
        SectionLayout::read(whole, 0x20) == layout,
{
    header.lemma_bytes();
    SectionLayout::lemma_read_part(whole, 0, header.bytes(), 0x20);
    layout.lemma_read_back(header.bytes(), 0x20);
}

/// Sections are cut out of a part of a blob as they are cut out of the part
/// alone, if the part starts `shift` bytes before the index `offset` from
/// which the layout counts.
proof fn lemma_sections_at_part(blob: Seq<u8>, offset: int, part: Seq<u8>, shift: int, layout: SectionLayout)
    requires
        0 <= offset,
        offset + part.len() <= blob.len(),
        blob.subrange(offset, offset + part.len()) == part,
        layout.contiguous(),
        0 <= shift + layout.fs_access_control_offset,
        shift + layout.end() <= part.len(),
    ensures
        sections_at(blob, offset + shift, layout) == sections_at(part, shift, layout),
{
    let cut = blob.subrange(offset, offset + part.len());
    assert forall|i: int| 0 <= i < part.len() implies blob[offset + i] == part[i] by {
        assert(cut[i] == blob[offset + i]);
    }
    let a = sections_at(blob, offset + shift, layout);
    let b = sections_at(part, shift, layout);
    assert(a.fs_access_control =~= b.fs_access_control);
    assert(a.service_table =~= b.service_table);
    assert(a.capability_table =~= b.capability_table);
}

} // verus!
