//! Putting a blob together: the metadata header, the declaration container
//! and the instance container.
//!
//! Everything that depends on the descriptor alone is encoded once, into
//! [`Sections`]. Both containers hold the same service table and the same
//! capability table, and every size in a header is the length of the bytes
//! that were encoded.

use crate::capability::{CapabilityModel, caps_model, KernelCapability, words_result};
use crate::codec::{le_bytes_words, push_bytes, push_words, push_zeros, zeros};
use crate::descriptor::{AcidBehavior, Npdm};
use crate::error::{bytes_result, ErrorModel, KeyFault, NpdmError};
use crate::key::{get_pkey_from_pem, key_of_pem, pss_verdict, sign_digest};
use crate::layout::{
    Aci, ACI_FAC_SIZE, aci_fs_access_control, ACI_HEADER_SIZE, Acid, ACID_FAC_SIZE,
    acid_fs_access_control, ACID_HEADER_SIZE, AcidModel, Meta, META_SIZE, MetaModel, SectionLayout,
    SIGNATURE_SIZE, write_aci_fs_access_control, write_acid_fs_access_control,
};
use crate::services::{encode_services, names_of, service_table};
use crate::text::{hex_decode, hex_decoded};
use crate::utils::{calculate_sha256, sha256_of};
use vstd::prelude::*;
use vstd::string::StringSliceAdditionalSpecFns;
use vstd::utf8::encode_utf8;

verus! {

/// What both containers are made of, encoded from the descriptor once.
#[derive(Debug, Clone)]
pub struct Sections {
    /// The flags byte of the metadata header.
    pub meta_flags: u8,
    /// The flags word of the declaration header.
    pub acid_flags: u32,
    /// The public key of the declaration header.
    pub developer_key: [u8; 256],
    /// The service table.
    pub service_table: Vec<u8>,
    /// The capability words, little-endian.
    pub capability_table: Vec<u8>,
}

/// [`Sections`] over sequences.
pub struct SectionsModel {
    pub meta_flags: u8,
    pub acid_flags: u32,
    pub developer_key: Seq<u8>,
    pub service_table: Seq<u8>,
    pub capability_table: Seq<u8>,
}

impl View for Sections {
    type V = SectionsModel;

    open spec fn view(&self) -> SectionsModel {
        SectionsModel {
            meta_flags: self.meta_flags,
            acid_flags: self.acid_flags,
            developer_key: self.developer_key@,
            service_table: self.service_table@,
            capability_table: self.capability_table@,
        }
    }
}

impl SectionsModel {
    /// The bytes that the two tables take together.
    pub open spec fn tables_len(self) -> nat {
        self.service_table.len() + self.capability_table.len()
    }

    /// The size of the instance container.
    pub open spec fn aci_size(self) -> nat {
        0x5c + self.tables_len()
    }

    /// The size of a declaration container that is built from the
    /// descriptor, signature included.
    pub open spec fn acid_size(self) -> nat {
        0x26c + self.tables_len()
    }

    /// Where the blocks of the instance container lie.
    pub open spec fn aci_layout(self) -> SectionLayout {
        SectionLayout::of(0x40, 0x1c, self.service_table.len() as u32, self.capability_table.len() as u32)
    }

    /// Where the blocks of a built declaration container lie.
    pub open spec fn acid_layout(self) -> SectionLayout {
        SectionLayout::of(0x240, 0x2c, self.service_table.len() as u32, self.capability_table.len() as u32)
    }
}

/// 1 for `true`, 0 for `false`.
pub open spec fn flag8(flag: bool) -> u8 {
    if flag {
        1u8
    } else {
        0u8
    }
}

/// 1 for `true`, 0 for `false`.
pub open spec fn flag32(flag: bool) -> u32 {
    if flag {
        1u32
    } else {
        0u32
    }
}

/// `flag`, or `default` where there is none.
pub open spec fn flag_or(flag: Option<bool>, default: bool) -> bool {
    match flag {
        Some(b) => b,
        None => default,
    }
}

/// `number`, or 0 where there is none.
pub open spec fn number_or_zero(number: Option<u32>) -> u32 {
    match number {
        Some(n) => n,
        None => 0,
    }
}

/// The words of a list of capabilities, one capability after the other, or
/// the error of the first capability that has one.
pub open spec fn list_encoding(caps: Seq<CapabilityModel>) -> Result<Seq<u32>, ErrorModel>
    decreases caps.len(),
{
    if caps.len() == 0 {
        Ok(Seq::empty())
    } else {
        match list_encoding(caps.drop_last()) {
            Ok(words) => match caps.last().encoding() {
                Ok(more) => Ok(words + more),
                Err(e) => Err(e),
            },
            Err(e) => Err(e),
        }
    }
}

/// The name field of the metadata header: the first 12 bytes of the name,
/// filled up to 16 bytes with zeros.
pub open spec fn name_field(name: Seq<char>) -> Seq<u8> {
    let bytes = encode_utf8(name);
    let kept = if bytes.len() < 12 {
        bytes.len()
    } else {
        12
    };
    bytes.take(kept as int) + zeros((16 - kept) as nat)
}

proof fn lemma_list_encoding_error_stays(caps: Seq<CapabilityModel>, k: int)
    requires
        0 <= k <= caps.len(),
        list_encoding(caps.take(k)) is Err,
    ensures
        list_encoding(caps) == list_encoding(caps.take(k)),
    decreases caps.len() - k,
{
    if k == caps.len() {
        assert(caps.take(k) =~= caps);
    } else {
        assert(caps.take(k + 1).drop_last() =~= caps.take(k));
        lemma_list_encoding_error_stays(caps, k + 1);
    }
}

/// Encodes the capabilities of a list, one after the other.
pub fn encode_capabilities(caps: &[KernelCapability]) -> (r: Result<Vec<u32>, NpdmError>)
    ensures
        words_result(r) == list_encoding(caps_model(caps@)),
{
    let ghost models = caps_model(caps@);
    let mut words: Vec<u32> = Vec::new();
    let mut i: usize = 0;
    assert(models.take(0) =~= Seq::<CapabilityModel>::empty());
    while i < caps.len()
        invariant
            i <= caps.len(),
            models == caps_model(caps@),
            list_encoding(models.take(i as int)) == Ok::<Seq<u32>, ErrorModel>(words@),
        decreases caps.len() - i,
    {
        proof {
            assert(models.take(i + 1).drop_last() =~= models.take(i as int));
            assert(models.take(i + 1).last() == caps@[i as int]@);
        }
        match caps[i].encode() {
            Ok(more) => {
                let ghost before = words@;
                let mut k: usize = 0;
                while k < more.len()
                    invariant
                        k <= more.len(),
                        words@ == before + more@.take(k as int),
                    decreases more.len() - k,
                {
                    words.push(more[k]);
                    assert(words@ =~= before + more@.take(k + 1));
                    k = k + 1;
                }
                assert(more@.take(more@.len() as int) =~= more@);
            },
            Err(e) => {
                proof {
                    lemma_list_encoding_error_stays(models, i + 1);
                }
                return Err(e);
            },
        }
        i = i + 1;
    }
    assert(models.take(caps@.len() as int) =~= models);
    Ok(words)
}

/// Where the declaration container of a blob comes from.
pub enum DeclarationSource {
    /// It is built from the descriptor, behind this signature.
    Built(Seq<u8>),
    /// It is this container, taken as it is.
    Reused(Seq<u8>),
}

impl Npdm {
    /// The flags byte of the metadata header: bit 0 for a 64-bit program,
    /// the address space type in bits 1 and 2, and two options in bits 4
    /// and 5. An address space type above 3 is an error.
    pub open spec fn meta_flags_byte(&self) -> Result<u8, ErrorModel> {
        if self.address_space_type & !3u8 != 0 {
            Err(ErrorModel::InvalidValue("address_space_type"@))
        } else {
            Ok(
                ((self.address_space_type & 3u8) << 1) | flag8(self.is_64_bit) | (flag8(
                    flag_or(self.optimize_memory_allocation, false),
                ) << 4) | (flag8(flag_or(self.disable_device_address_space_merge, false)) << 5),
            )
        }
    }

    /// The names of the services that the program calls and of those that
    /// it hosts. The pair of lists is taken if it is there; else both
    /// single lists must be there.
    pub open spec fn service_names(&self) -> Result<(Seq<Seq<char>>, Seq<Seq<char>>), ErrorModel> {
        match self.service_access_control {
            Some(sac) => Ok((names_of(sac.accessed_services@), names_of(sac.hosted_services@))),
            None => match self.accessed_services {
                None => Err(ErrorModel::MissingField("accessed_services"@)),
                Some(accessed) => match self.hosted_services {
                    None => Err(ErrorModel::MissingField("hosted_services"@)),
                    Some(hosted) => Ok((names_of(accessed@), names_of(hosted@))),
                },
            },
        }
    }

    /// The capability words of the program.
    pub open spec fn capability_words(&self) -> Result<Seq<u32>, ErrorModel> {
        match self.kernel_capabilities.list() {
            Ok(caps) => list_encoding(caps),
            Err(e) => Err(e),
        }
    }

    /// The public key of the declaration header: 256 zero bytes if the
    /// descriptor gives none, else the 256 bytes that the text spells in
    /// hexadecimal.
    pub open spec fn developer_key_bytes(&self) -> Result<Seq<u8>, ErrorModel> {
        match self.developer_key {
            None => Ok(zeros(0x100)),
            Some(text) => match hex_decoded(encode_utf8(text@)) {
                Some(bytes) => if bytes.len() == 0x100 {
                    Ok(bytes)
                } else {
                    Err(ErrorModel::InvalidValue("developer_key"@))
                },
                None => Err(ErrorModel::InvalidValue("developer_key"@)),
            },
        }
    }

    /// The flags word of the declaration header: bit 0 for a production
    /// program (which a program is unless the descriptor says otherwise),
    /// bit 1 for unqualified approval, the memory region in bits 2 and 3.
    /// A memory region above 3 is an error.
    pub open spec fn acid_flags_word(&self) -> Result<u32, ErrorModel> {
        if self.memory_region & !3u32 != 0 {
            Err(ErrorModel::InvalidValue("memory_region"@))
        } else {
            Ok(
                flag32(flag_or(self.is_production, true)) | (flag32(
                    flag_or(self.unqualified_approval, false),
                ) << 1) | ((self.memory_region & 3u32) << 2),
            )
        }
    }

    /// Everything that is encoded from the descriptor alone, or the first
    /// error: of the address space type, of the service lists, of the
    /// capabilities in their order, of the developer key, of the memory
    /// region, of the service names.
    pub open spec fn sections(&self) -> Result<SectionsModel, ErrorModel> {
        match self.meta_flags_byte() {
            Err(e) => Err(e),
            Ok(meta_flags) => match self.service_names() {
                Err(e) => Err(e),
                Ok(names) => match self.capability_words() {
                    Err(e) => Err(e),
                    Ok(words) => match self.developer_key_bytes() {
                        Err(e) => Err(e),
                        Ok(developer_key) => match self.acid_flags_word() {
                            Err(e) => Err(e),
                            Ok(acid_flags) => match service_table(names.0, names.1) {
                                Err(e) => Err(e),
                                Ok(table) => Ok(
                                    SectionsModel {
                                        meta_flags,
                                        acid_flags,
                                        developer_key,
                                        service_table: table,
                                        capability_table: le_bytes_words(words),
                                    },
                                ),
                            },
                        },
                    },
                },
            },
        }
    }

    /// The least program identifier that the declaration allows.
    pub open spec fn program_id_min(&self) -> u64 {
        match self.program_id_range_min {
            Some(id) => id.0,
            None => self.program_id.0,
        }
    }

    /// The greatest program identifier that the declaration allows.
    pub open spec fn program_id_max(&self) -> u64 {
        match self.program_id_range_max {
            Some(id) => id.0,
            None => self.program_id.0,
        }
    }

    /// The metadata header of a blob whose containers have the given sizes.
    /// The declaration container follows the header, the instance container
    /// follows the declaration container.
    pub open spec fn meta_model(&self, meta_flags: u8, acid_size: u32, aci_size: u32) -> MetaModel {
        MetaModel {
            signature_key_generation: number_or_zero(self.signature_key_generation),
            flags: meta_flags,
            main_thread_priority: self.main_thread_priority,
            main_thread_core_number: self.main_thread_core_number,
            system_resource_size: number_or_zero(self.system_resource_size),
            version: number_or_zero(self.version),
            main_thread_stack_size: self.main_thread_stack_size.0 as u32,
            name: name_field(self.name@),
            product_code: zeros(16),
            aci_offset: (0x80 + acid_size) as u32,
            aci_size,
            acid_offset: 0x80,
            acid_size,
        }
    }

    /// The header of a built declaration container.
    pub open spec fn acid_model(&self, s: SectionsModel) -> AcidModel {
        AcidModel {
            rsa_nca_pubkey: s.developer_key,
            signed_size: (0x16c + s.tables_len()) as u32,
            flags: s.acid_flags,
            program_id_range_min: self.program_id_min(),
            program_id_range_max: self.program_id_max(),
            layout: s.acid_layout(),
        }
    }

    /// A built declaration container without its signature: the header,
    /// the filesystem-access block, the service table, the capability
    /// table. These are the bytes that a signature is made of.
    pub open spec fn declaration_body(&self, s: SectionsModel) -> Seq<u8> {
        self.acid_model(s).bytes() + acid_fs_access_control(self.fs_access_control.flags.0)
            + s.service_table + s.capability_table
    }

    /// The instance container: the header, the filesystem-access block, the
    /// service table, the capability table.
    pub open spec fn instance(&self, s: SectionsModel) -> Seq<u8> {
        (Aci { program_id: self.program_id.0, layout: s.aci_layout() }).bytes() + aci_fs_access_control(
            self.fs_access_control.flags.0,
        ) + s.service_table + s.capability_table
    }

    /// The blob around a declaration container.
    pub open spec fn blob(&self, s: SectionsModel, declaration: Seq<u8>) -> Seq<u8> {
        self.meta_model(s.meta_flags, declaration.len() as u32, s.aci_size() as u32).bytes()
            + declaration + self.instance(s)
    }

    /// A built declaration container without its signature, or an error if
    /// its size does not fit in 32 bits.
    pub open spec fn declaration_checked(&self, s: SectionsModel) -> Result<Seq<u8>, ErrorModel> {
        if s.acid_size() > u32::MAX {
            Err(ErrorModel::InvalidValue("acid_size"@))
        } else {
            Ok(self.declaration_body(s))
        }
    }

    /// The blob around a declaration container, or an error if the end of
    /// the declaration container or the size of the instance container does
    /// not fit in 32 bits.
    pub open spec fn assembled(&self, s: SectionsModel, declaration: Seq<u8>) -> Result<Seq<u8>, ErrorModel> {
        if 0x80 + declaration.len() > u32::MAX {
            Err(ErrorModel::InvalidValue("acid_size"@))
        } else if s.aci_size() > u32::MAX {
            Err(ErrorModel::InvalidValue("aci_size"@))
        } else {
            Ok(self.blob(s, declaration))
        }
    }

    /// The blob of the descriptor, or the first error on the way to it.
    pub open spec fn image(&self, source: DeclarationSource) -> Result<Seq<u8>, ErrorModel> {
        match self.sections() {
            Err(e) => Err(e),
            Ok(s) => match source {
                DeclarationSource::Built(signature) => match self.declaration_checked(s) {
                    Err(e) => Err(e),
                    Ok(body) => self.assembled(s, signature + body),
                },
                DeclarationSource::Reused(acid) => self.assembled(s, acid),
            },
        }
    }
}

/// The outcome of encoding the sections, over sequences.
pub open spec fn sections_result(r: Result<Sections, NpdmError>) -> Result<SectionsModel, ErrorModel> {
    match r {
        Ok(sections) => Ok(sections@),
        Err(e) => Err(e@),
    }
}

impl Npdm {
    /// Computes the flags byte of the metadata header.
    pub fn meta_flags(&self) -> (r: Result<u8, NpdmError>)
        ensures
            match r {
                Ok(flags) => self.meta_flags_byte() == Ok::<u8, ErrorModel>(flags),
                Err(e) => self.meta_flags_byte() == Err::<u8, ErrorModel>(e@),
            },
    {
        if self.address_space_type & !3u8 != 0 {
            return Err(NpdmError::invalid_value("address_space_type"));
        }
        let wide: u8 = if self.is_64_bit { 1 } else { 0 };
        let optimize: u8 = if self.optimize_memory_allocation.unwrap_or(false) { 1 } else { 0 };
        let no_merge: u8 = if self.disable_device_address_space_merge.unwrap_or(false) { 1 } else { 0 };
        Ok(((self.address_space_type & 3u8) << 1) | wide | (optimize << 4) | (no_merge << 5))
    }

    /// Computes the flags word of the declaration header.
    pub fn acid_flags(&self) -> (r: Result<u32, NpdmError>)
        ensures
            match r {
                Ok(flags) => self.acid_flags_word() == Ok::<u32, ErrorModel>(flags),
                Err(e) => self.acid_flags_word() == Err::<u32, ErrorModel>(e@),
            },
    {
        if self.memory_region & !3u32 != 0 {
            return Err(NpdmError::invalid_value("memory_region"));
        }
        let production: u32 = if self.is_production.unwrap_or(true) { 1 } else { 0 };
        let unqualified: u32 = if self.unqualified_approval.unwrap_or(false) { 1 } else { 0 };
        Ok(production | (unqualified << 1) | ((self.memory_region & 3u32) << 2))
    }

    /// Decodes the public key of the declaration header.
    pub fn decode_developer_key(&self) -> (r: Result<[u8; 256], NpdmError>)
        ensures
            match r {
                Ok(key) => self.developer_key_bytes() == Ok::<Seq<u8>, ErrorModel>(key@),
                Err(e) => self.developer_key_bytes() == Err::<Seq<u8>, ErrorModel>(e@),
            },
    {
        let mut key: [u8; 256] = [0u8; 256];
        match &self.developer_key {
            None => {
                assert(key@ =~= zeros(0x100));
                Ok(key)
            },
            Some(devkey) => {
                match hex_decode(devkey.as_str()) {
                    Ok(bytes) => {
                        if bytes.len() != 0x100 {
                            return Err(NpdmError::invalid_value("developer_key"));
                        }
                        let mut i: usize = 0;
                        while i < 0x100
                            invariant
                                i <= 0x100,
                                bytes@.len() == 0x100,
                                forall|j: int| 0 <= j < i ==> key@[j] == bytes@[j],
                            decreases 0x100 - i,
                        {
                            key[i] = bytes[i];
                            i = i + 1;
                        }
                        assert(key@ =~= bytes@);
                        Ok(key)
                    },
                    Err(_) => Err(NpdmError::invalid_value("developer_key")),
                }
            },
        }
    }

    /// Whether the name is longer than the 12 bytes that the metadata
    /// header keeps of it: the caller then owes a warning.
    pub fn name_is_cut(&self) -> (r: bool)
        ensures
            r == (encode_utf8(self.name@).len() > 12),
    {
        self.name.as_str().as_bytes().len() > 12
    }

    /// Fills the name field of the metadata header.
    pub fn meta_name(&self) -> (r: [u8; 16])
        ensures
            r@ == name_field(self.name@),
    {
        let bytes: &[u8] = self.name.as_str().as_bytes();
        let name_len: usize = if bytes.len() < 12 {
            bytes.len()
        } else {
            12
        };
        let mut name: [u8; 16] = [0u8; 16];
        let mut i: usize = 0;
        while i < name_len
            invariant
                i <= name_len <= 12,
                name_len <= bytes@.len(),
                forall|j: int| 0 <= j < i ==> name@[j] == bytes@[j],
                forall|j: int| i <= j < 16 ==> name@[j] == 0,
            decreases name_len - i,
        {
            name[i] = bytes[i];
            i = i + 1;
        }
        assert(name@ =~= name_field(self.name@));
        name
    }

    /// Encodes everything that depends on the descriptor alone.
    pub fn encode_sections(&self) -> (r: Result<Sections, NpdmError>)
        ensures
            sections_result(r) == self.sections(),
    {
        let meta_flags: u8 = match self.meta_flags() {
            Ok(flags) => flags,
            Err(e) => {
                return Err(e);
            },
        };
        let table: Result<Vec<u8>, NpdmError> = match &self.service_access_control {
            Some(sac) => encode_services(sac.accessed_services.as_slice(), sac.hosted_services.as_slice()),
            None => match &self.accessed_services {
                None => {
                    return Err(NpdmError::missing_field("accessed_services"));
                },
                Some(accessed_srvs) => match &self.hosted_services {
                    None => {
                        return Err(NpdmError::missing_field("hosted_services"));
                    },
                    Some(hosted_srvs) => encode_services(accessed_srvs.as_slice(), hosted_srvs.as_slice()),
                },
            },
        };
        let kern_caps: Vec<KernelCapability> = match self.kernel_capabilities.get_list() {
            Ok(caps) => caps,
            Err(e) => {
                return Err(e);
            },
        };
        let words: Vec<u32> = match encode_capabilities(kern_caps.as_slice()) {
            Ok(words) => words,
            Err(e) => {
                return Err(e);
            },
        };
        let developer_key: [u8; 256] = match self.decode_developer_key() {
            Ok(key) => key,
            Err(e) => {
                return Err(e);
            },
        };
        let acid_flags: u32 = match self.acid_flags() {
            Ok(flags) => flags,
            Err(e) => {
                return Err(e);
            },
        };
        let service_table: Vec<u8> = match table {
            Ok(bytes) => bytes,
            Err(e) => {
                return Err(e);
            },
        };
        let mut capability_table: Vec<u8> = Vec::new();
        push_words(&mut capability_table, words.as_slice());
        assert(capability_table@ =~= le_bytes_words(words@));
        Ok(Sections { meta_flags, acid_flags, developer_key, service_table, capability_table })
    }

    /// Puts the blob together around a declaration container.
    pub fn assemble(&self, sections: &Sections, declaration: &[u8]) -> (r: Result<Vec<u8>, NpdmError>)
        ensures
            bytes_result(r) == self.assembled(sections@, declaration@),
    {
        if declaration.len() > (0xffff_ffff - META_SIZE) as usize {
            return Err(NpdmError::invalid_value("acid_size"));
        }
        let layout: SectionLayout = match SectionLayout::new(
            ACI_HEADER_SIZE,
            ACI_FAC_SIZE,
            sections.service_table.len(),
            sections.capability_table.len(),
        ) {
            Some(layout) => layout,
            None => {
                return Err(NpdmError::invalid_value("aci_size"));
            },
        };
        let acid_size: u32 = declaration.len() as u32;
        let meta = Meta {
            signature_key_generation: self.signature_key_generation.unwrap_or(0),
            flags: sections.meta_flags,
            main_thread_priority: self.main_thread_priority,
            main_thread_core_number: self.main_thread_core_number,
            system_resource_size: self.system_resource_size.unwrap_or(0),
            version: self.version.unwrap_or(0),
            main_thread_stack_size: #[verifier::truncate] (self.main_thread_stack_size.0 as u32),
            name: self.meta_name(),
            product_code: [0u8; 16],
            aci_offset: META_SIZE + acid_size,
            aci_size: layout.kernel_access_control_offset + layout.kernel_access_control_size,
            acid_offset: META_SIZE,
            acid_size,
        };
        assert(meta.product_code@ =~= zeros(16));
        assert(meta@ == self.meta_model(sections.meta_flags, acid_size, sections@.aci_size() as u32));
        let mut out: Vec<u8> = Vec::new();
        meta.write(&mut out);
        push_bytes(&mut out, declaration);
        let aci0 = Aci { program_id: self.program_id.0, layout };
        aci0.write(&mut out);
        write_aci_fs_access_control(&mut out, self.fs_access_control.flags.0);
        push_bytes(&mut out, sections.service_table.as_slice());
        push_bytes(&mut out, sections.capability_table.as_slice());
        assert(out@ =~= self.blob(sections@, declaration@));
        Ok(out)
    }

    /// Builds the blob of the descriptor.
    ///
    /// With [`AcidBehavior::Empty`] the declaration container is built from
    /// the descriptor behind 256 zero bytes. With [`AcidBehavior::Use`] the
    /// given container is taken as it is. With [`AcidBehavior::Sign`] the
    /// container is built and signed: the signature stands in the bytes
    /// 0x80 to 0x180 of the blob, and it verifies, under the public part of
    /// the key, for the SHA-256 digest of the container without its
    /// signature. A descriptor that gives an error with a
    /// signature of zeros gives it here too; then the key is loaded, and
    /// what is left to fail is the signing. A key whose modulus is too
    /// short to sign gives a `SignatureLength` error.
    pub fn into_npdm(&self, acid_behavior: AcidBehavior) -> (r: Result<Vec<u8>, NpdmError>)
        ensures
            acid_behavior is Empty ==> bytes_result(r) == self.image(DeclarationSource::Built(zeros(0x100))),
            acid_behavior matches AcidBehavior::Use { acid } ==> bytes_result(r) == self.image(
                DeclarationSource::Reused(acid@),
            ),
            acid_behavior matches AcidBehavior::Sign { pem } ==> match self.image(
                DeclarationSource::Built(zeros(0x100)),
            ) {
                Err(e) => bytes_result(r) == Err::<Seq<u8>, ErrorModel>(e),
                Ok(_) => match key_of_pem(pem@) {
                    Err(e) => bytes_result(r) == Err::<Seq<u8>, ErrorModel>(e),
                    Ok(key) => match r {
                        Ok(out) => {
                            &&& key.wide_enough()
                            &&& out@.len() >= 0x180
                            &&& self.image(DeclarationSource::Built(out@.subrange(0x80, 0x180)))
                                == Ok::<Seq<u8>, ErrorModel>(out@)
                            &&& pss_verdict(
                                key.modulus,
                                key.public_exponent,
                                sha256_of(self.declaration_body(self.sections()->Ok_0)),
                                out@.subrange(0x80, 0x180),
                            )
                        },
                        Err(e) => if key.wide_enough() {
                            e@ == ErrorModel::SignatureLength || e@ == ErrorModel::KeyError(
                                KeyFault::Signing,
                            )
                        } else {
                            e@ == ErrorModel::SignatureLength
                        },
                    },
                },
            },
    {
        let sections: Sections = match self.encode_sections() {
            Ok(sections) => sections,
            Err(e) => {
                return Err(e);
            },
        };
        match acid_behavior {
            AcidBehavior::Use { acid } => self.assemble(&sections, acid),
            AcidBehavior::Empty => {
                let mut declaration: Vec<u8> = Vec::new();
                push_zeros(&mut declaration, SIGNATURE_SIZE as usize);
                match write_acid(&mut declaration, self, &sections) {
                    Ok(_) => {},
                    Err(e) => {
                        return Err(e);
                    },
                }
                self.assemble(&sections, declaration.as_slice())
            },
            AcidBehavior::Sign { pem } => {
                let mut v: Vec<u8> = Vec::new();
                match write_acid(&mut v, self, &sections) {
                    Ok(_) => {},
                    Err(e) => {
                        return Err(e);
                    },
                }
                if v.len() > (0xffff_ffff - META_SIZE - SIGNATURE_SIZE) as usize {
                    return Err(NpdmError::invalid_value("acid_size"));
                }
                if SectionLayout::new(
                    ACI_HEADER_SIZE,
                    ACI_FAC_SIZE,
                    sections.service_table.len(),
                    sections.capability_table.len(),
                ).is_none() {
                    return Err(NpdmError::invalid_value("aci_size"));
                }
                proof {
                    assert((zeros(0x100) + v@).len() == 0x100 + v@.len());
                }
                let pkey = match get_pkey_from_pem(pem) {
                    Ok(key) => key,
                    Err(e) => {
                        return Err(e);
                    },
                };
                let hash: Vec<u8> = match calculate_sha256(v.as_slice()) {
                    Ok(hash) => hash,
                    Err(_) => {
                        return Err(NpdmError::KeyError(KeyFault::Signing));
                    },
                };
                assert(hash@ == sha256_of(self.declaration_body(sections@)));
                let sig: Vec<u8> = match sign_digest(&pkey, hash.as_slice()) {
                    Ok(sig) => sig,
                    Err(e) => {
                        return Err(e);
                    },
                };
                let mut declaration: Vec<u8> = Vec::new();
                push_bytes(&mut declaration, sig.as_slice());
                push_bytes(&mut declaration, v.as_slice());
                let out = self.assemble(&sections, declaration.as_slice());
                proof {
                    let s = sections@;
                    let meta = self.meta_model(s.meta_flags, declaration@.len() as u32, s.aci_size() as u32);
                    meta.lemma_bytes();
                    assert(declaration@ =~= sig@ + v@);
                    let blob = self.blob(s, declaration@);
                    assert(blob.subrange(0x80, 0x180) =~= sig@);
                }
                out
            },
        }
    }
}

/// Appends a built declaration container without its signature: the
/// header, the filesystem-access block, the service table and the
/// capability table. Nothing is appended if the size of the container does
/// not fit in 32 bits.
pub fn write_acid(writer: &mut Vec<u8>, npdm: &Npdm, sections: &Sections) -> (r: Result<(), NpdmError>)
    ensures
        match r {
            Ok(_) => npdm.declaration_checked(sections@) is Ok && final(writer)@ == old(writer)@
                + npdm.declaration_body(sections@) && npdm.declaration_body(sections@).len() + 0x100
                == sections@.acid_size(),
            Err(e) => npdm.declaration_checked(sections@) == Err::<Seq<u8>, ErrorModel>(e@)
                && final(writer)@ == old(writer)@,
        },
{
    let layout: SectionLayout = match SectionLayout::new(
        SIGNATURE_SIZE + ACID_HEADER_SIZE,
        ACID_FAC_SIZE,
        sections.service_table.len(),
        sections.capability_table.len(),
    ) {
        Some(layout) => layout,
        None => {
            return Err(NpdmError::invalid_value("acid_size"));
        },
    };
    let acid_size: u32 = layout.kernel_access_control_offset + layout.kernel_access_control_size;
    let acid = Acid {
        rsa_nca_pubkey: sections.developer_key,
        signed_size: acid_size - SIGNATURE_SIZE,
        flags: sections.acid_flags,
        program_id_range_min: match &npdm.program_id_range_min {
            Some(id) => id.0,
            None => npdm.program_id.0,
        },
        program_id_range_max: match &npdm.program_id_range_max {
            Some(id) => id.0,
            None => npdm.program_id.0,
        },
        layout,
    };
    assert(acid@ == npdm.acid_model(sections@));
    acid.write(writer);
    write_acid_fs_access_control(writer, npdm.fs_access_control.flags.0);
    push_bytes(writer, sections.service_table.as_slice());
    push_bytes(writer, sections.capability_table.as_slice());
    proof {
        acid@.lemma_bytes();
        assert(writer@ =~= old(writer)@ + npdm.declaration_body(sections@));
    }
    Ok(())
}

} // verus!
