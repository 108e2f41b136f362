//! The descriptor of a program: what a blob is built from.

use crate::capability::{
    CapabilityModel, caps_model, KernelCapability, KernelVersion, ProgramType, SYSTEM_CALL_LIMIT,
    SystemCallId, SystemCalls, SystemCallsModel,
};
use crate::error::{ErrorModel, NpdmError};
use crate::utils::HexOrNum;
use vstd::prelude::*;

verus! {

/// A system call that a descriptor enables, by number or by identifier.
#[derive(Debug, Clone, Copy)]
pub enum EnabledSystemCall {
    Value(HexOrNum),
    Name(SystemCallId),
}

impl EnabledSystemCall {
    /// The identifier of the call: a number stands for itself if it is
    /// below the limit of system calls.
    pub open spec fn id(&self) -> Option<u32> {
        match self {
            EnabledSystemCall::Value(raw_val) => if raw_val.0 < 144 {
                Some(raw_val.0 as u32)
            } else {
                None
            },
            EnabledSystemCall::Name(id) => Some(id.0),
        }
    }

    /// The identifier of the call. A number that is not below
    /// [`SYSTEM_CALL_LIMIT`] is an invalid value.
    pub fn get_id(&self) -> (r: Result<SystemCallId, NpdmError>)
        ensures
            match r {
                Ok(id) => self.id() == Some(id.0),
                Err(e) => self.id() is None && e@ == ErrorModel::InvalidValue("enable_system_calls"@),
            },
    {
        match self {
            EnabledSystemCall::Value(raw_val) => {
                if raw_val.0 < SYSTEM_CALL_LIMIT as u64 {
                    Ok(SystemCallId(raw_val.0 as u32))
                } else {
                    Err(NpdmError::invalid_value("enable_system_calls"))
                }
            },
            EnabledSystemCall::Name(id) => Ok(*id),
        }
    }
}

/// A range of memory that is mapped into a program.
#[derive(Debug, Clone, Copy)]
pub struct MemoryMap {
    pub address: HexOrNum,
    pub size: HexOrNum,
    pub is_ro: bool,
    pub is_io: bool,
}

/// The kernel capabilities of a program, one field for each kind.
#[derive(Debug, Clone)]
pub struct KernelCapabilityValues {
    pub highest_priority: u8,
    pub lowest_priority: u8,
    pub max_core_number: u8,
    pub min_core_number: u8,
    pub enable_system_calls: Vec<EnabledSystemCall>,
    pub memory_maps: Option<Vec<MemoryMap>>,
    pub io_memory_maps: Option<Vec<HexOrNum>>,
    pub enable_interrupts: Option<Vec<[u16; 2]>>,
    pub program_type: Option<ProgramType>,
    pub kernel_version: Option<KernelVersion>,
    pub allow_debug: Option<bool>,
    pub force_debug_prod: Option<bool>,
    pub force_debug: Option<bool>,
}

/// `flag`, or `false` where there is none.
pub open spec fn flag_or_false(flag: Option<bool>) -> bool {
    match flag {
        Some(b) => b,
        None => false,
    }
}

impl KernelCapabilityValues {
    /// Whether every enabled system call has an identifier.
    pub open spec fn system_calls_ok(&self) -> bool {
        forall|i: int|
            0 <= i < self.enable_system_calls@.len() ==> (#[trigger] self.enable_system_calls@[i]).id()
                is Some
    }

    /// The identifiers of the enabled system calls.
    pub open spec fn system_call_ids(&self) -> Seq<u32> {
        Seq::new(self.enable_system_calls@.len(), |i: int| self.enable_system_calls@[i].id().unwrap())
    }

    /// The capability that holds the priorities and cores.
    pub open spec fn thread_info(&self) -> CapabilityModel {
        CapabilityModel::ThreadInfo {
            highest_priority: self.highest_priority,
            lowest_priority: self.lowest_priority,
            max_core_number: self.max_core_number,
            min_core_number: self.min_core_number,
        }
    }

    /// One capability for each memory map.
    pub open spec fn memory_map_list(&self) -> Seq<CapabilityModel> {
        match self.memory_maps {
            Some(maps) => Seq::new(
                maps@.len(),
                |i: int|
                    CapabilityModel::MemoryMap {
                        address: maps@[i].address.0,
                        size: maps@[i].size.0,
                        is_ro: maps@[i].is_ro,
                        is_io: maps@[i].is_io,
                    },
            ),
            None => Seq::empty(),
        }
    }

    /// One capability for each page of device memory.
    pub open spec fn io_memory_map_list(&self) -> Seq<CapabilityModel> {
        match self.io_memory_maps {
            Some(pages) => Seq::new(pages@.len(), |i: int| CapabilityModel::IoMemoryMap(pages@[i].0)),
            None => Seq::empty(),
        }
    }

    /// One capability for each pair of interrupt lines.
    pub open spec fn interrupt_list(&self) -> Seq<CapabilityModel> {
        match self.enable_interrupts {
            Some(pairs) => Seq::new(
                pairs@.len(),
                |i: int| CapabilityModel::EnableInterrupts { first: pairs@[i][0], second: pairs@[i][1] },
            ),
            None => Seq::empty(),
        }
    }

    /// The program type, if there is one.
    pub open spec fn misc_params_list(&self) -> Seq<CapabilityModel> {
        match self.program_type {
            Some(program_type) => seq![CapabilityModel::MiscParams(program_type@)],
            None => Seq::empty(),
        }
    }

    /// The kernel version, if there is one.
    pub open spec fn kernel_version_list(&self) -> Seq<CapabilityModel> {
        match self.kernel_version {
            Some(kernel_version) => seq![CapabilityModel::KernelVersion(kernel_version@)],
            None => Seq::empty(),
        }
    }

    /// The debug flags, if at least one of the three is given. A flag that
    /// is not given counts as `false`.
    pub open spec fn debug_flags_list(&self) -> Seq<CapabilityModel> {
        if self.allow_debug is Some || self.force_debug_prod is Some || self.force_debug is Some {
            seq![
                CapabilityModel::DebugFlags {
                    allow_debug: flag_or_false(self.allow_debug),
                    force_debug_prod: flag_or_false(self.force_debug_prod),
                    force_debug: flag_or_false(self.force_debug),
                },
            ]
        } else {
            Seq::empty()
        }
    }

    /// The capabilities as a list: thread information, system calls, memory
    /// maps, pages of device memory, interrupts, program type, kernel
    /// version, debug flags. A system call without an identifier makes the
    /// list an error.
    pub open spec fn list(&self) -> Result<Seq<CapabilityModel>, ErrorModel> {
        if self.system_calls_ok() {
            Ok(
                seq![
                    self.thread_info(),
                    CapabilityModel::EnableSystemCalls(SystemCallsModel::Name(self.system_call_ids())),
                ] + self.memory_map_list() + self.io_memory_map_list() + self.interrupt_list()
                    + self.misc_params_list() + self.kernel_version_list() + self.debug_flags_list(),
            )
        } else {
            Err(ErrorModel::InvalidValue("enable_system_calls"@))
        }
    }

    /// The identifiers of the enabled system calls, or the error of the
    /// first call that has none.
    fn collect_ids(&self) -> (r: Result<Vec<SystemCallId>, NpdmError>)
        ensures
            match r {
                Ok(ids) => self.system_calls_ok() && Seq::new(ids@.len(), |i: int| ids@[i].0)
                    == self.system_call_ids(),
                Err(e) => !self.system_calls_ok() && e@ == ErrorModel::InvalidValue(
                    "enable_system_calls"@,
                ),
            },
    {
        let mut ids: Vec<SystemCallId> = Vec::new();
        let mut i: usize = 0;
        while i < self.enable_system_calls.len()
            invariant
                i <= self.enable_system_calls.len(),
                ids@.len() == i,
                forall|j: int|
                    0 <= j < i ==> (#[trigger] self.enable_system_calls@[j]).id() == Some(ids@[j].0),
            decreases self.enable_system_calls.len() - i,
        {
            match self.enable_system_calls[i].get_id() {
                Ok(id) => {
                    ids.push(id);
                },
                Err(e) => {
                    assert(self.enable_system_calls@[i as int].id() is None);
                    return Err(e);
                },
            }
            i = i + 1;
        }
        assert(Seq::new(ids@.len(), |i: int| ids@[i].0) =~= self.system_call_ids());
        Ok(ids)
    }

    /// Appends one capability for each memory map.
    fn push_memory_maps(&self, kern_caps: &mut Vec<KernelCapability>)
        ensures
            caps_model(final(kern_caps)@) == caps_model(old(kern_caps)@) + self.memory_map_list(),
    {
        let ghost head = caps_model(kern_caps@);
        if let Some(mem_maps) = &self.memory_maps {
            let mut i: usize = 0;
            assert(caps_model(kern_caps@) =~= head + self.memory_map_list().take(0));
            while i < mem_maps.len()
                invariant
                    i <= mem_maps.len(),
                    self.memory_maps == Some(*mem_maps),
                    caps_model(kern_caps@) == head + self.memory_map_list().take(i as int),
                decreases mem_maps.len() - i,
            {
                let mem_map_kcap = KernelCapability::MemoryMap {
                    address: mem_maps[i].address,
                    size: mem_maps[i].size,
                    is_ro: mem_maps[i].is_ro,
                    is_io: mem_maps[i].is_io,
                };
                push_cap(kern_caps, mem_map_kcap);
                assert(caps_model(kern_caps@) =~= head + self.memory_map_list().take(i + 1));
                i = i + 1;
            }
            assert(self.memory_map_list().take(mem_maps@.len() as int) =~= self.memory_map_list());
        } else {
            assert(caps_model(kern_caps@) =~= head + self.memory_map_list());
        }
    }

    /// Appends one capability for each page of device memory.
    fn push_io_memory_maps(&self, kern_caps: &mut Vec<KernelCapability>)
        ensures
            caps_model(final(kern_caps)@) == caps_model(old(kern_caps)@) + self.io_memory_map_list(),
    {
        let ghost head = caps_model(kern_caps@);
        if let Some(io_mem_maps) = &self.io_memory_maps {
            let mut i: usize = 0;
            assert(caps_model(kern_caps@) =~= head + self.io_memory_map_list().take(0));
            while i < io_mem_maps.len()
                invariant
                    i <= io_mem_maps.len(),
                    self.io_memory_maps == Some(*io_mem_maps),
                    caps_model(kern_caps@) == head + self.io_memory_map_list().take(i as int),
                decreases io_mem_maps.len() - i,
            {
                let io_mem_map_kcap = KernelCapability::IoMemoryMap(io_mem_maps[i]);
                push_cap(kern_caps, io_mem_map_kcap);
                assert(caps_model(kern_caps@) =~= head + self.io_memory_map_list().take(i + 1));
                i = i + 1;
            }
            assert(self.io_memory_map_list().take(io_mem_maps@.len() as int)
                =~= self.io_memory_map_list());
        } else {
            assert(caps_model(kern_caps@) =~= head + self.io_memory_map_list());
        }
    }

    /// Appends one capability for each pair of interrupt lines.
    fn push_interrupts(&self, kern_caps: &mut Vec<KernelCapability>)
        ensures
            caps_model(final(kern_caps)@) == caps_model(old(kern_caps)@) + self.interrupt_list(),
    {
        let ghost head = caps_model(kern_caps@);
        if let Some(enable_ints) = &self.enable_interrupts {
            let mut i: usize = 0;
            assert(caps_model(kern_caps@) =~= head + self.interrupt_list().take(0));
            while i < enable_ints.len()
                invariant
                    i <= enable_ints.len(),
                    self.enable_interrupts == Some(*enable_ints),
                    caps_model(kern_caps@) == head + self.interrupt_list().take(i as int),
                decreases enable_ints.len() - i,
            {
                let enable_int_kcap = KernelCapability::EnableInterrupts(enable_ints[i]);
                push_cap(kern_caps, enable_int_kcap);
                assert(caps_model(kern_caps@) =~= head + self.interrupt_list().take(i + 1));
                i = i + 1;
            }
            assert(self.interrupt_list().take(enable_ints@.len() as int) =~= self.interrupt_list());
        } else {
            assert(caps_model(kern_caps@) =~= head + self.interrupt_list());
        }
    }

    /// Appends the program type, the kernel version and the debug flags, as
    /// far as they are given.
    fn push_options(&self, kern_caps: &mut Vec<KernelCapability>)
        ensures
            caps_model(final(kern_caps)@) == caps_model(old(kern_caps)@) + self.misc_params_list()
                + self.kernel_version_list() + self.debug_flags_list(),
    {
        let ghost head = caps_model(kern_caps@);
        if let Some(program_type) = &self.program_type {
            let misc_params_kcap = KernelCapability::MiscParams(program_type.duplicate());
            push_cap(kern_caps, misc_params_kcap);
        }
        let ghost with_type = head + self.misc_params_list();
        assert(caps_model(kern_caps@) =~= with_type);

        if let Some(kernel_version) = &self.kernel_version {
            let kern_version_kcap = KernelCapability::KernelVersion(kernel_version.duplicate());
            push_cap(kern_caps, kern_version_kcap);
        }
        let ghost with_version = with_type + self.kernel_version_list();
        assert(caps_model(kern_caps@) =~= with_version);

        if self.allow_debug.is_some() || self.force_debug_prod.is_some() || self.force_debug.is_some() {
            let debug_flags_kcap = KernelCapability::DebugFlags {
                allow_debug: self.allow_debug.unwrap_or(false),
                force_debug_prod: self.force_debug_prod.unwrap_or(false),
                force_debug: self.force_debug.unwrap_or(false),
            };
            push_cap(kern_caps, debug_flags_kcap);
        }
        assert(caps_model(kern_caps@) =~= with_version + self.debug_flags_list());
    }

    /// Brings the capabilities into the form of a list.
    pub fn to_list_format(&self) -> (r: Result<Vec<KernelCapability>, NpdmError>)
        ensures
            caps_result(r) == self.list(),
    {
        let mut kern_caps: Vec<KernelCapability> = Vec::new();

        let thread_info_kcap = KernelCapability::ThreadInfo {
            highest_priority: self.highest_priority,
            lowest_priority: self.lowest_priority,
            max_core_number: self.max_core_number,
            min_core_number: self.min_core_number,
        };
        push_cap(&mut kern_caps, thread_info_kcap);

        let enable_svc_ids: Vec<SystemCallId> = match self.collect_ids() {
            Ok(ids) => ids,
            Err(e) => {
                return Err(e);
            },
        };
        let enable_svcs_kcap = KernelCapability::EnableSystemCalls(SystemCalls::Name(enable_svc_ids));
        push_cap(&mut kern_caps, enable_svcs_kcap);
        assert(caps_model(kern_caps@) =~= seq![
            self.thread_info(),
            CapabilityModel::EnableSystemCalls(SystemCallsModel::Name(self.system_call_ids())),
        ]);

        self.push_memory_maps(&mut kern_caps);
        self.push_io_memory_maps(&mut kern_caps);
        self.push_interrupts(&mut kern_caps);
        self.push_options(&mut kern_caps);

        Ok(kern_caps)
    }
}

/// Appends a capability to a list.
fn push_cap(caps: &mut Vec<KernelCapability>, cap: KernelCapability)
    ensures
        caps_model(final(caps)@) == caps_model(old(caps)@).push(cap@),
{
    caps.push(cap);
    assert(caps_model(caps@) =~= caps_model(old(caps)@).push(cap@));
}

/// The outcome of listing capabilities, over models.
pub open spec fn caps_result(r: Result<Vec<KernelCapability>, NpdmError>) -> Result<Seq<CapabilityModel>, ErrorModel> {
    match r {
        Ok(caps) => Ok(caps_model(caps@)),
        Err(e) => Err(e@),
    }
}

/// The permissions of a program on the filesystem, as a mask of bits.
#[derive(Debug, Clone, Copy)]
pub struct FsAccessControl {
    pub flags: HexOrNum,
}

/// The services that a program calls and those that it hosts.
#[derive(Debug, Clone)]
pub struct ServiceAccessControl {
    pub accessed_services: Vec<String>,
    pub hosted_services: Vec<String>,
}

/// The kernel capabilities of a program, in one of two forms.
#[derive(Debug, Clone)]
pub enum KernelCapabilities {
    /// The capabilities one by one, in the order in which they are encoded.
    TypeValueList(Vec<KernelCapability>),
    /// The capabilities by kind.
    Struct(KernelCapabilityValues),
}

impl KernelCapabilities {
    /// The capabilities in the order in which they are encoded.
    pub open spec fn list(&self) -> Result<Seq<CapabilityModel>, ErrorModel> {
        match self {
            KernelCapabilities::TypeValueList(list) => Ok(caps_model(list@)),
            KernelCapabilities::Struct(kern_caps) => kern_caps.list(),
        }
    }

    /// The capabilities as a list, whichever form they were given in.
    pub fn get_list(&self) -> (r: Result<Vec<KernelCapability>, NpdmError>)
        ensures
            caps_result(r) == self.list(),
    {
        match self {
            KernelCapabilities::TypeValueList(list) => {
                let mut copy: Vec<KernelCapability> = Vec::new();
                let mut i: usize = 0;
                while i < list.len()
                    invariant
                        i <= list.len(),
                        caps_model(copy@) == caps_model(list@).take(i as int),
                    decreases list.len() - i,
                {
                    push_cap(&mut copy, list[i].duplicate());
                    assert(caps_model(copy@) =~= caps_model(list@).take(i + 1));
                    i = i + 1;
                }
                assert(caps_model(list@).take(list@.len() as int) =~= caps_model(list@));
                Ok(copy)
            },
            KernelCapabilities::Struct(kern_caps) => kern_caps.to_list_format(),
        }
    }
}

/// The descriptor of a program.
#[derive(Debug, Clone)]
pub struct Npdm {
    // Fields of the metadata header.
    pub name: String,
    pub product_code: Option<String>,
    pub signature_key_generation: Option<u32>,
    pub main_thread_stack_size: HexOrNum,
    pub main_thread_priority: u8,
    pub main_thread_core_number: u8,
    pub system_resource_size: Option<u32>,
    pub version: Option<u32>,
    pub address_space_type: u8,
    pub is_64_bit: bool,
    pub optimize_memory_allocation: Option<bool>,
    pub disable_device_address_space_merge: Option<bool>,
    // Fields of the declaration header.
    pub is_production: Option<bool>,
    pub unqualified_approval: Option<bool>,
    pub memory_region: u32,
    pub program_id_range_min: Option<HexOrNum>,
    pub program_id_range_max: Option<HexOrNum>,
    // Field of the instance header.
    pub program_id: HexOrNum,
    // Filesystem access.
    pub fs_access_control: FsAccessControl,
    // Service access, either as two lists or as one pair of lists.
    pub accessed_services: Option<Vec<String>>,
    pub hosted_services: Option<Vec<String>>,
    pub service_access_control: Option<ServiceAccessControl>,
    // Kernel capabilities.
    pub kernel_capabilities: KernelCapabilities,
    // The public key that is put into the declaration header, in
    // hexadecimal.
    pub developer_key: Option<String>,
}

/// Where the declaration container of a blob comes from.
#[derive(Debug, Clone, Copy)]
pub enum AcidBehavior<'a> {
    /// It is built from the descriptor and signed with the private key that
    /// the PEM text holds.
    Sign { pem: &'a str },
    /// It is built from the descriptor; its signature is 256 zero bytes.
    Empty,
    /// It is taken as it is, signature and all.
    Use { acid: &'a [u8] },
}

} // verus!
