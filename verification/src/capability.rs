//! Kernel capabilities and the 32-bit words that stand for them.
//!
//! Every word starts, at bit 0, with a run of set bits closed by a clear
//! bit. The length of the run says which capability the word describes; the
//! fields lie above the clear bit.

use crate::bits::{
    fits16, fits32, set_bit32, set_bits16, set_bits32, with_bit32, with_bits16, with_bits32,
};
use crate::error::{ErrorModel, NpdmError};
use crate::syscalls::{
    encode_syscalls, lemma_syscall_mask_bits, lemma_syscall_words, numbers_of, syscall_words,
};
use crate::text::{lowercase_of, parse_unsigned, same_text, to_lowercase, unsigned_number};
use crate::utils::{HexOrNum, Scalar, ScalarModel};
use vstd::prelude::*;
use vstd::string::StringSliceAdditionalSpecFns;
use vstd::utf8::encode_utf8;

verus! {

/// System calls are numbered from 0 up to, but not including, this limit:
/// the mask has six words, and each covers 24 calls.
pub const SYSTEM_CALL_LIMIT: u32 = 144;

/// The number of a system call.
#[derive(Debug, Clone, Copy)]
pub struct SystemCallId(pub u32);

/// The system calls that a program may make.
#[derive(Debug, Clone)]
pub enum SystemCalls {
    /// Pairs of a name and a number. Only the numbers are encoded, and
    /// neither their order nor a pair that occurs twice changes the words.
    KeyValue(Vec<(String, HexOrNum)>),
    /// Identifiers of system calls.
    Name(Vec<SystemCallId>),
}

/// [`SystemCalls`] as sequences.
pub enum SystemCallsModel {
    KeyValue(Seq<(Seq<char>, u64)>),
    Name(Seq<u32>),
}

impl View for SystemCalls {
    type V = SystemCallsModel;

    open spec fn view(&self) -> SystemCallsModel {
        match self {
            SystemCalls::KeyValue(pairs) => SystemCallsModel::KeyValue(
                Seq::new(pairs@.len(), |i: int| (pairs@[i].0@, pairs@[i].1.0)),
            ),
            SystemCalls::Name(ids) => SystemCallsModel::Name(
                Seq::new(ids@.len(), |i: int| ids@[i].0),
            ),
        }
    }
}

impl SystemCallsModel {
    /// The numbers of the calls, in the order given.
    pub open spec fn numbers(self) -> Seq<nat> {
        match self {
            SystemCallsModel::KeyValue(pairs) => Seq::new(pairs.len(), |i: int| pairs[i].1 as nat),
            SystemCallsModel::Name(ids) => Seq::new(ids.len(), |i: int| ids[i] as nat),
        }
    }
}

/// The kind of a program, by number or by name.
#[derive(Debug, Clone)]
pub enum ProgramType {
    Value(HexOrNum),
    Name(String),
}

/// [`ProgramType`] with its name as a sequence of characters.
pub enum ProgramTypeModel {
    Value(u64),
    Name(Seq<char>),
}

impl View for ProgramType {
    type V = ProgramTypeModel;

    open spec fn view(&self) -> ProgramTypeModel {
        match self {
            ProgramType::Value(v) => ProgramTypeModel::Value(v.0),
            ProgramType::Name(s) => ProgramTypeModel::Name(s@),
        }
    }
}

/// The code of a program type whose name, in lower case, is `name`.
pub open spec fn program_type_code(name: Seq<char>) -> Option<u16> {
    if name == "system"@ {
        Some(0u16)
    } else if name == "application"@ {
        Some(1u16)
    } else if name == "applet"@ {
        Some(2u16)
    } else {
        None
    }
}

impl ProgramTypeModel {
    /// The code of the program type: a number from 0 to 2 stands for
    /// itself, a name is looked up without regard to case.
    pub open spec fn value(self) -> Option<u16> {
        match self {
            ProgramTypeModel::Value(v) => if v > 2 {
                None
            } else {
                Some(v as u16)
            },
            ProgramTypeModel::Name(s) => program_type_code(lowercase_of(s)),
        }
    }
}

impl ProgramType {
    /// Gives a field of a descriptor its meaning as a program type: a
    /// number, then a string that starts with `0x`, are a value; any other
    /// text is a name.
    pub fn from_scalar(scalar: &Scalar) -> (r: ProgramType)
        ensures
            r@ == match scalar@ {
                ScalarModel::Number(n) => ProgramTypeModel::Value(n),
                ScalarModel::Text(t) => match scalar@.number() {
                    Some(n) => ProgramTypeModel::Value(n),
                    None => ProgramTypeModel::Name(t),
                },
            },
    {
        match HexOrNum::from_scalar(scalar) {
            Some(value) => ProgramType::Value(value),
            None => match scalar {
                Scalar::Number(n) => ProgramType::Value(HexOrNum(*n)),
                Scalar::Text(t) => ProgramType::Name(t.clone()),
            },
        }
    }

    /// Looks up a name that is already in lower case.
    pub fn code_of_name(name: &str) -> (r: Option<u16>)
        ensures
            r == program_type_code(name@),
    {
        if same_text(name, "system") {
            Some(0)
        } else if same_text(name, "application") {
            Some(1)
        } else if same_text(name, "applet") {
            Some(2)
        } else {
            None
        }
    }

    /// The code of the program type, or `None` for a number above 2 or an
    /// unknown name.
    pub fn get_value(&self) -> (r: Option<u16>)
        ensures
            r == self@.value(),
    {
        match self {
            ProgramType::Value(prog_type_val) => {
                if prog_type_val.0 > 2 {
                    None
                } else {
                    Some(prog_type_val.0 as u16)
                }
            },
            ProgramType::Name(prog_type_str) => {
                let lowered: String = to_lowercase(prog_type_str.as_str());
                ProgramType::code_of_name(lowered.as_str())
            },
        }
    }
}

/// The least kernel version that a program needs, as a packed number or as
/// text of the form `major.minor`.
#[derive(Debug, Clone)]
pub enum KernelVersion {
    Value(HexOrNum),
    Version(String),
}

/// [`KernelVersion`] with its text as a sequence of characters.
pub enum KernelVersionModel {
    Value(u64),
    Version(Seq<char>),
}

impl View for KernelVersion {
    type V = KernelVersionModel;

    open spec fn view(&self) -> KernelVersionModel {
        match self {
            KernelVersion::Value(v) => KernelVersionModel::Value(v.0),
            KernelVersion::Version(s) => KernelVersionModel::Version(s@),
        }
    }
}

/// Whether `text` holds exactly one full stop, at index `dot`.
pub open spec fn only_dot_at(text: Seq<u8>, dot: int) -> bool {
    &&& 0 <= dot < text.len()
    &&& forall|i: int| 0 <= i < text.len() ==> ((#[trigger] text[i]) == 0x2e <==> i == dot)
}

/// A version with the minor number in the low 4 bits and the major number
/// in the 12 bits above.
pub open spec fn packed_version(major: u16, minor: u16) -> u16 {
    (major << 4) | minor
}

/// The packed version that the text `major.minor` spells. Both parts are
/// decimal numbers; the major number is below 4096 and the minor number
/// below 16.
pub open spec fn dotted_version(text: Seq<u8>) -> Option<u16> {
    if exists|dot: int| only_dot_at(text, dot) {
        let dot = choose|dot: int| only_dot_at(text, dot);
        match (
            unsigned_number(text.subrange(0, dot), 10, u32::MAX as nat),
            unsigned_number(text.subrange(dot + 1, text.len() as int), 10, u32::MAX as nat),
        ) {
            (Some(major), Some(minor)) => if major < 4096 && minor < 16 {
                Some(packed_version(major as u16, minor as u16))
            } else {
                None
            },
            _ => None,
        }
    } else {
        None
    }
}

impl KernelVersionModel {
    /// The packed version: a number from 0x30 on stands for its low 16
    /// bits, text is read as `major.minor`.
    pub open spec fn value(self) -> Option<u16> {
        match self {
            KernelVersionModel::Value(v) => if v < 0x30 {
                None
            } else {
                Some(v as u16)
            },
            KernelVersionModel::Version(s) => dotted_version(encode_utf8(s)),
        }
    }
}

impl KernelVersion {
    /// Gives a field of a descriptor its meaning as a kernel version: a
    /// number, then a string that starts with `0x`, are a value; any other
    /// text is a version to be read as `major.minor`.
    pub fn from_scalar(scalar: &Scalar) -> (r: KernelVersion)
        ensures
            r@ == match scalar@ {
                ScalarModel::Number(n) => KernelVersionModel::Value(n),
                ScalarModel::Text(t) => match scalar@.number() {
                    Some(n) => KernelVersionModel::Value(n),
                    None => KernelVersionModel::Version(t),
                },
            },
    {
        match HexOrNum::from_scalar(scalar) {
            Some(value) => KernelVersion::Value(value),
            None => match scalar {
                Scalar::Number(n) => KernelVersion::Value(HexOrNum(*n)),
                Scalar::Text(t) => KernelVersion::Version(t.clone()),
            },
        }
    }

    /// Reads `major.minor` from the bytes of a text.
    pub fn parse_dotted(text: &[u8]) -> (r: Option<u16>)
        ensures
            r == dotted_version(text@),
    {
        let mut dot: usize = 0;
        let mut found: bool = false;
        let mut i: usize = 0;
        while i < text.len()
            invariant
                i <= text.len(),
                found ==> dot < i && only_dot_at(text@.take(i as int), dot as int),
                !found ==> forall|j: int| 0 <= j < i ==> (#[trigger] text@[j]) != 0x2e,
            decreases text.len() - i,
        {
            if text[i] == 0x2e {
                if found {
                    proof {
                        assert forall|d: int| !only_dot_at(text@, d) by {
                            if only_dot_at(text@, d) {
                                assert(text@[i as int] == 0x2e);
                                assert(text@.take(i as int)[dot as int] == 0x2e);
                                assert(text@[dot as int] == 0x2e);
                            }
                        }
                    }
                    return None;
                }
                found = true;
                dot = i;
            }
            proof {
                let before = text@.take(i as int);
                let now = text@.take(i + 1);
                if found {
                    assert forall|j: int| 0 <= j < now.len() implies ((#[trigger] now[j]) == 0x2e
                        <==> j == dot) by {
                        if j < i {
                            assert(before[j] == now[j]);
                        }
                    }
                }
            }
            i = i + 1;
        }
        proof {
            assert(text@.take(text@.len() as int) =~= text@);
        }
        if !found {
            proof {
                assert forall|d: int| !only_dot_at(text@, d) by {
                    if only_dot_at(text@, d) {
                        assert(text@[d] == 0x2e);
                    }
                }
            }
            return None;
        }
        proof {
            let chosen = choose|d: int| only_dot_at(text@, d);
            assert(only_dot_at(text@, dot as int));
            assert(text@[chosen] == 0x2e);
            assert(chosen == dot);
        }
        let major: u64 = match parse_unsigned(text, 0, dot, 10, 0xffff_ffff) {
            Some(v) => v,
            None => {
                return None;
            },
        };
        let minor: u64 = match parse_unsigned(text, dot + 1, text.len(), 10, 0xffff_ffff) {
            Some(v) => v,
            None => {
                return None;
            },
        };
        if major >= 4096 || minor >= 16 {
            return None;
        }
        let major16: u16 = major as u16;
        let minor16: u16 = minor as u16;
        assert(fits16(minor16, 4) && fits16(major16, 12) && with_bits16(
            with_bits16(0u16, 0, 4, minor16),
            4,
            16,
            major16,
        ) == (major16 << 4) | minor16) by (bit_vector)
            requires
                major16 < 4096,
                minor16 < 16,
        ;
        let low: u16 = set_bits16(0, 0, 4, minor16);
        Some(set_bits16(low, 4, 16, major16))
    }

    /// The packed version, or `None` for a number below 0x30 or text that
    /// is not a version.
    pub fn get_value(&self) -> (r: Option<u16>)
        ensures
            r == self@.value(),
    {
        match self {
            KernelVersion::Value(ver_val) => {
                if ver_val.0 < 0x030 {
                    None
                } else {
                    Some(#[verifier::truncate] (ver_val.0 as u16))
                }
            },
            KernelVersion::Version(ver_str) => KernelVersion::parse_dotted(ver_str.as_str().as_bytes()),
        }
    }
}

impl SystemCalls {
    /// The numbers of the calls as 32-bit identifiers, or `None` if one of
    /// them is not below [`SYSTEM_CALL_LIMIT`].
    pub fn numbers(&self) -> (r: Option<Vec<u32>>)
        ensures
            match r {
                Some(ids) => numbers_of(ids@) == self@.numbers() && all_in_range(self@.numbers()),
                None => !all_in_range(self@.numbers()),
            },
    {
        let ghost numbers = self@.numbers();
        let mut ids: Vec<u32> = Vec::new();
        match self {
            SystemCalls::KeyValue(pairs) => {
                let mut i: usize = 0;
                while i < pairs.len()
                    invariant
                        i <= pairs.len(),
                        self == SystemCalls::KeyValue(*pairs),
                        numbers == self@.numbers(),
                        ids@.len() == i,
                        forall|j: int| 0 <= j < i ==> ids@[j] as nat == numbers[j] && numbers[j] < 144,
                    decreases pairs.len() - i,
                {
                    let value: u64 = pairs[i].1.0;
                    if value >= SYSTEM_CALL_LIMIT as u64 {
                        assert(numbers[i as int] >= 144);
                        return None;
                    }
                    ids.push(value as u32);
                    i = i + 1;
                }
            },
            SystemCalls::Name(names) => {
                let mut i: usize = 0;
                while i < names.len()
                    invariant
                        i <= names.len(),
                        self == SystemCalls::Name(*names),
                        numbers == self@.numbers(),
                        ids@.len() == i,
                        forall|j: int| 0 <= j < i ==> ids@[j] as nat == numbers[j] && numbers[j] < 144,
                    decreases names.len() - i,
                {
                    let value: u32 = names[i].0;
                    if value >= SYSTEM_CALL_LIMIT {
                        assert(numbers[i as int] >= 144);
                        return None;
                    }
                    ids.push(value);
                    i = i + 1;
                }
            },
        }
        assert(numbers_of(ids@) =~= numbers);
        Some(ids)
    }
}

/// Whether every system call of `numbers` is below [`SYSTEM_CALL_LIMIT`].
pub open spec fn all_in_range(numbers: Seq<nat>) -> bool {
    forall|i: int| 0 <= i < numbers.len() ==> (#[trigger] numbers[i]) < 144
}

/// One permission that a program asks of the kernel.
#[derive(Debug, Clone)]
pub enum KernelCapability {
    /// The range of thread priorities (0 is the highest) and of processor
    /// cores that the program may use.
    ThreadInfo { highest_priority: u8, lowest_priority: u8, max_core_number: u8, min_core_number: u8 },
    /// The system calls that the program may make.
    EnableSystemCalls(SystemCalls),
    /// A range of memory that is mapped into the program.
    MemoryMap { address: HexOrNum, size: HexOrNum, is_ro: bool, is_io: bool },
    /// One page of device memory that is mapped into the program.
    IoMemoryMap(HexOrNum),
    /// Two interrupt lines that the program may take.
    EnableInterrupts([u16; 2]),
    /// The kind of the program.
    MiscParams(ProgramType),
    /// The least kernel version that the program needs.
    KernelVersion(KernelVersion),
    /// The size of the program's handle table.
    HandleTableSize(u16),
    /// How the program may be debugged. At most one of the three may hold.
    DebugFlags { allow_debug: bool, force_debug_prod: bool, force_debug: bool },
}

/// [`KernelCapability`] over sequences and plain numbers.
pub enum CapabilityModel {
    ThreadInfo { highest_priority: u8, lowest_priority: u8, max_core_number: u8, min_core_number: u8 },
    EnableSystemCalls(SystemCallsModel),
    MemoryMap { address: u64, size: u64, is_ro: bool, is_io: bool },
    IoMemoryMap(u64),
    EnableInterrupts { first: u16, second: u16 },
    MiscParams(ProgramTypeModel),
    KernelVersion(KernelVersionModel),
    HandleTableSize(u16),
    DebugFlags { allow_debug: bool, force_debug_prod: bool, force_debug: bool },
}

impl View for KernelCapability {
    type V = CapabilityModel;

    open spec fn view(&self) -> CapabilityModel {
        match self {
            KernelCapability::ThreadInfo {
                highest_priority,
                lowest_priority,
                max_core_number,
                min_core_number,
            } => CapabilityModel::ThreadInfo {
                highest_priority: *highest_priority,
                lowest_priority: *lowest_priority,
                max_core_number: *max_core_number,
                min_core_number: *min_core_number,
            },
            KernelCapability::EnableSystemCalls(calls) => CapabilityModel::EnableSystemCalls(calls@),
            KernelCapability::MemoryMap { address, size, is_ro, is_io } => CapabilityModel::MemoryMap {
                address: address.0,
                size: size.0,
                is_ro: *is_ro,
                is_io: *is_io,
            },
            KernelCapability::IoMemoryMap(page) => CapabilityModel::IoMemoryMap(page.0),
            KernelCapability::EnableInterrupts(pair) => CapabilityModel::EnableInterrupts {
                first: pair[0],
                second: pair[1],
            },
            KernelCapability::MiscParams(prog_type) => CapabilityModel::MiscParams(prog_type@),
            KernelCapability::KernelVersion(kern_ver) => CapabilityModel::KernelVersion(kern_ver@),
            KernelCapability::HandleTableSize(size) => CapabilityModel::HandleTableSize(*size),
            KernelCapability::DebugFlags {
                allow_debug,
                force_debug_prod,
                force_debug,
            } => CapabilityModel::DebugFlags {
                allow_debug: *allow_debug,
                force_debug_prod: *force_debug_prod,
                force_debug: *force_debug,
            },
        }
    }
}

/// 1 for `true`, 0 for `false`.
pub open spec fn flag_bit(flag: bool) -> u32 {
    if flag {
        1u32
    } else {
        0u32
    }
}

/// Tag of 3 set bits; priorities in bits 4..10 and 10..16, cores in bits
/// 16..24 and 24..32.
pub open spec fn thread_info_word(highest_priority: u8, lowest_priority: u8, min_core: u8, max_core: u8) -> u32 {
    0b111u32 | ((highest_priority as u32) << 4) | ((lowest_priority as u32) << 10) | ((min_core as u32)
        << 16) | ((max_core as u32) << 24)
}

/// Tag of 6 set bits; a 24-bit value in bits 7..31 and a flag in bit 31.
pub open spec fn memory_map_word(value: u32, flag: bool) -> u32 {
    0b11_1111u32 | (value << 7) | (flag_bit(flag) << 31)
}

/// Tag of 7 set bits; the page number in bits 8..32.
pub open spec fn io_memory_map_word(page: u32) -> u32 {
    0b111_1111u32 | (page << 8)
}

/// Tag of 11 set bits; the interrupt lines in bits 12..22 and 22..32.
pub open spec fn interrupts_word(first: u16, second: u16) -> u32 {
    0b111_1111_1111u32 | ((first as u32) << 12) | ((second as u32) << 22)
}

/// Tag of 13 set bits; the program type in bits 14..17.
pub open spec fn misc_params_word(code: u16) -> u32 {
    0b1_1111_1111_1111u32 | ((code as u32) << 14)
}

/// Tag of 14 set bits; the packed version in bits 15..32.
pub open spec fn kernel_version_word(version: u16) -> u32 {
    0b11_1111_1111_1111u32 | ((version as u32) << 15)
}

/// Tag of 15 set bits; the size in bits 16..26.
pub open spec fn handle_table_word(size: u16) -> u32 {
    0b111_1111_1111_1111u32 | ((size as u32) << 16)
}

/// Tag of 16 set bits; the three flags in bits 17, 18 and 19.
pub open spec fn debug_flags_word(allow_debug: bool, force_debug_prod: bool, force_debug: bool) -> u32 {
    0b1111_1111_1111_1111u32 | (flag_bit(allow_debug) << 17) | (flag_bit(force_debug_prod) << 18) | (
    flag_bit(force_debug) << 19)
}

impl CapabilityModel {
    /// The words that stand for the capability, or the error that it ends
    /// in. A field that does not fit into its bits is an invalid value, and
    /// so is a system call that is not below [`SYSTEM_CALL_LIMIT`].
    pub open spec fn encoding(self) -> Result<Seq<u32>, ErrorModel> {
        match self {
            CapabilityModel::ThreadInfo {
                highest_priority,
                lowest_priority,
                max_core_number,
                min_core_number,
            } => if highest_priority < 64 && lowest_priority < 64 {
                Ok(seq![thread_info_word(highest_priority, lowest_priority, min_core_number, max_core_number)])
            } else {
                Err(ErrorModel::InvalidValue("thread_info"@))
            },
            CapabilityModel::EnableSystemCalls(calls) => if all_in_range(calls.numbers()) {
                Ok(syscall_words(calls.numbers()))
            } else {
                Err(ErrorModel::InvalidValue("enable_system_calls"@))
            },
            CapabilityModel::MemoryMap { address, size, is_ro, is_io } => if address < 0x100_0000 && size
                < 0x100_0000 {
                Ok(seq![memory_map_word(address as u32, is_ro), memory_map_word(size as u32, is_io)])
            } else {
                Err(ErrorModel::InvalidValue("memory_map"@))
            },
            CapabilityModel::IoMemoryMap(page) => if page < 0x100_0000 {
                Ok(seq![io_memory_map_word(page as u32)])
            } else {
                Err(ErrorModel::InvalidValue("io_memory_map"@))
            },
            CapabilityModel::EnableInterrupts { first, second } => if first < 1024 && second < 1024 {
                Ok(seq![interrupts_word(first, second)])
            } else {
                Err(ErrorModel::InvalidValue("enable_interrupts"@))
            },
            CapabilityModel::MiscParams(prog_type) => match prog_type.value() {
                Some(code) => Ok(seq![misc_params_word(code)]),
                None => Err(ErrorModel::InvalidValue("misc_params (program_type)"@)),
            },
            CapabilityModel::KernelVersion(kern_ver) => match kern_ver.value() {
                Some(version) => Ok(seq![kernel_version_word(version)]),
                None => Err(ErrorModel::InvalidValue("kernel_version"@)),
            },
            CapabilityModel::HandleTableSize(size) => if size < 1024 {
                Ok(seq![handle_table_word(size)])
            } else {
                Err(ErrorModel::InvalidValue("handle_table_size"@))
            },
            CapabilityModel::DebugFlags { allow_debug, force_debug_prod, force_debug } => if flag_bit(
                allow_debug,
            ) + flag_bit(force_debug_prod) + flag_bit(force_debug) > 1 {
                Err(ErrorModel::InvalidDebugFlags)
            } else {
                Ok(seq![debug_flags_word(allow_debug, force_debug_prod, force_debug)])
            },
        }
    }
}

/// The outcome of an encoding, over sequences.
pub open spec fn words_result(r: Result<Vec<u32>, NpdmError>) -> Result<Seq<u32>, ErrorModel> {
    match r {
        Ok(words) => Ok(words@),
        Err(e) => Err(e@),
    }
}

fn one_word(word: u32) -> (r: Vec<u32>)
    ensures
        r@ == seq![word],
{
    let mut words: Vec<u32> = Vec::new();
    words.push(word);
    assert(words@ =~= seq![word]);
    words
}

impl KernelCapability {
    /// Packs the capability into its words.
    pub fn encode(&self) -> (r: Result<Vec<u32>, NpdmError>)
        ensures
            words_result(r) == self@.encoding(),
    {
        match self {
            KernelCapability::ThreadInfo {
                highest_priority,
                lowest_priority,
                max_core_number,
                min_core_number,
            } => {
                let hp: u32 = *highest_priority as u32;
                let lp: u32 = *lowest_priority as u32;
                let lo: u32 = *min_core_number as u32;
                let hi: u32 = *max_core_number as u32;
                if hp >= 64 || lp >= 64 {
                    return Err(NpdmError::invalid_value("thread_info"));
                }
                assert(fits32(hp, 6) && fits32(lp, 6) && fits32(lo, 8) && fits32(hi, 8) && with_bits32(
                    with_bits32(with_bits32(with_bits32(0b111u32, 4, 10, hp), 10, 16, lp), 16, 24, lo),
                    24,
                    32,
                    hi,
                ) == 0b111u32 | (hp << 4) | (lp << 10) | (lo << 16) | (hi << 24)) by (bit_vector)
                    requires
                        hp < 64,
                        lp < 64,
                        lo < 256,
                        hi < 256,
                ;
                let w1: u32 = set_bits32(0b111u32, 4, 10, hp);
                let w2: u32 = set_bits32(w1, 10, 16, lp);
                let w3: u32 = set_bits32(w2, 16, 24, lo);
                let w4: u32 = set_bits32(w3, 24, 32, hi);
                Ok(one_word(w4))
            },
            KernelCapability::EnableSystemCalls(calls) => {
                match calls.numbers() {
                    Some(ids) => {
                        assert forall|i: int| 0 <= i < ids@.len() implies ids@[i] < 144 by {
                            assert(numbers_of(ids@)[i] < 144);
                        }
                        Ok(encode_syscalls(ids.as_slice()))
                    },
                    None => Err(NpdmError::invalid_value("enable_system_calls")),
                }
            },
            KernelCapability::MemoryMap { address, size, is_ro, is_io } => {
                if address.0 >= 0x100_0000 || size.0 >= 0x100_0000 {
                    return Err(NpdmError::invalid_value("memory_map"));
                }
                let a: u32 = address.0 as u32;
                let s: u32 = size.0 as u32;
                let first: u32 = KernelCapability::memory_word(a, *is_ro);
                let second: u32 = KernelCapability::memory_word(s, *is_io);
                let mut val: Vec<u32> = Vec::new();
                val.push(first);
                val.push(second);
                assert(val@ =~= seq![first, second]);
                Ok(val)
            },
            KernelCapability::IoMemoryMap(page) => {
                if page.0 >= 0x100_0000 {
                    return Err(NpdmError::invalid_value("io_memory_map"));
                }
                let p: u32 = page.0 as u32;
                assert(fits32(p, 24) && with_bits32(0b111_1111u32, 8, 32, p) == 0b111_1111u32 | (p << 8))
                    by (bit_vector)
                    requires
                        p < 0x100_0000,
                ;
                Ok(one_word(set_bits32(0b111_1111u32, 8, 32, p)))
            },
            KernelCapability::EnableInterrupts(irq_pair) => {
                let first: u32 = irq_pair[0] as u32;
                let second: u32 = irq_pair[1] as u32;
                if first >= 1024 || second >= 1024 {
                    return Err(NpdmError::invalid_value("enable_interrupts"));
                }
                assert(fits32(first, 10) && fits32(second, 10) && with_bits32(
                    with_bits32(0b111_1111_1111u32, 12, 22, first),
                    22,
                    32,
                    second,
                ) == 0b111_1111_1111u32 | (first << 12) | (second << 22)) by (bit_vector)
                    requires
                        first < 1024,
                        second < 1024,
                ;
                let w1: u32 = set_bits32(0b111_1111_1111u32, 12, 22, first);
                Ok(one_word(set_bits32(w1, 22, 32, second)))
            },
            KernelCapability::MiscParams(prog_type) => {
                match prog_type.get_value() {
                    None => Err(NpdmError::invalid_value("misc_params (program_type)")),
                    Some(prog_type_val) => {
                        let code: u32 = prog_type_val as u32;
                        proof {
                            lemma_program_type_code_small(prog_type@);
                        }
                        assert(fits32(code, 3) && with_bits32(0b1_1111_1111_1111u32, 14, 17, code)
                            == 0b1_1111_1111_1111u32 | (code << 14)) by (bit_vector)
                            requires
                                code <= 2,
                        ;
                        Ok(one_word(set_bits32(0b1_1111_1111_1111u32, 14, 17, code)))
                    },
                }
            },
            KernelCapability::KernelVersion(kern_ver) => {
                match kern_ver.get_value() {
                    None => Err(NpdmError::invalid_value("kernel_version")),
                    Some(kern_ver_val) => {
                        let version: u32 = kern_ver_val as u32;
                        assert(fits32(version, 17) && with_bits32(0b11_1111_1111_1111u32, 15, 32, version)
                            == 0b11_1111_1111_1111u32 | (version << 15)) by (bit_vector)
                            requires
                                version < 0x1_0000,
                        ;
                        Ok(one_word(set_bits32(0b11_1111_1111_1111u32, 15, 32, version)))
                    },
                }
            },
            KernelCapability::HandleTableSize(handle_table_size) => {
                let size: u32 = *handle_table_size as u32;
                if size >= 1024 {
                    return Err(NpdmError::invalid_value("handle_table_size"));
                }
                assert(fits32(size, 10) && with_bits32(0b111_1111_1111_1111u32, 16, 26, size)
                    == 0b111_1111_1111_1111u32 | (size << 16)) by (bit_vector)
                    requires
                        size < 1024,
                ;
                Ok(one_word(set_bits32(0b111_1111_1111_1111u32, 16, 26, size)))
            },
            KernelCapability::DebugFlags { allow_debug, force_debug, force_debug_prod } => {
                let a: u32 = if *allow_debug { 1 } else { 0 };
                let p: u32 = if *force_debug_prod { 1 } else { 0 };
                let f: u32 = if *force_debug { 1 } else { 0 };
                if a + f + p > 1 {
                    Err(NpdmError::InvalidDebugFlags)
                } else {
                    assert(with_bit32(
                        with_bit32(with_bit32(0xffffu32, 17, a == 1), 18, p == 1),
                        19,
                        f == 1,
                    ) == 0xffffu32 | (a << 17) | (p << 18) | (f << 19)) by (bit_vector)
                        requires
                            a <= 1,
                            p <= 1,
                            f <= 1,
                    ;
                    let w1: u32 = set_bit32(0b1111_1111_1111_1111u32, 17, *allow_debug);
                    let w2: u32 = set_bit32(w1, 18, *force_debug_prod);
                    Ok(one_word(set_bit32(w2, 19, *force_debug)))
                }
            },
        }
    }

    /// One word of a memory map: the tag, a 24-bit value and a flag.
    fn memory_word(value: u32, flag: bool) -> (r: u32)
        requires
            value < 0x100_0000,
        ensures
            r == memory_map_word(value, flag),
    {
        let bit: u32 = if flag { 1 } else { 0 };
        assert(fits32(value, 24) && with_bit32(with_bits32(0b11_1111u32, 7, 31, value), 31, bit == 1)
            == 0b11_1111u32 | (value << 7) | (bit << 31)) by (bit_vector)
            requires
                value < 0x100_0000,
                bit <= 1,
        ;
        let word: u32 = set_bits32(0b11_1111u32, 7, 31, value);
        set_bit32(word, 31, flag)
    }
}

/// A program type's code is at most 2.
pub proof fn lemma_program_type_code_small(prog_type: ProgramTypeModel)
    ensures
        prog_type.value() matches Some(code) ==> code <= 2,
{
}

/// The capabilities of a list as models.
pub open spec fn caps_model(caps: Seq<KernelCapability>) -> Seq<CapabilityModel> {
    Seq::new(caps.len(), |i: int| caps[i]@)
}

impl ProgramType {
    /// A copy with the same contents.
    pub fn duplicate(&self) -> (r: ProgramType)
        ensures
            r@ == self@,
    {
        match self {
            ProgramType::Value(v) => ProgramType::Value(*v),
            ProgramType::Name(s) => ProgramType::Name(s.clone()),
        }
    }
}

impl KernelVersion {
    /// A copy with the same contents.
    pub fn duplicate(&self) -> (r: KernelVersion)
        ensures
            r@ == self@,
    {
        match self {
            KernelVersion::Value(v) => KernelVersion::Value(*v),
            KernelVersion::Version(s) => KernelVersion::Version(s.clone()),
        }
    }
}

impl SystemCalls {
    /// A copy with the same contents.
    pub fn duplicate(&self) -> (r: SystemCalls)
        ensures
            r@ == self@,
    {
        match self {
            SystemCalls::KeyValue(pairs) => {
                let mut copy: Vec<(String, HexOrNum)> = Vec::new();
                let mut i: usize = 0;
                while i < pairs.len()
                    invariant
                        i <= pairs.len(),
                        copy@.len() == i,
                        forall|j: int|
                            0 <= j < i ==> copy@[j].0@ == pairs@[j].0@ && copy@[j].1.0 == pairs@[j].1.0,
                    decreases pairs.len() - i,
                {
                    copy.push((pairs[i].0.clone(), pairs[i].1));
                    i = i + 1;
                }
                let r = SystemCalls::KeyValue(copy);
                assert(r@->KeyValue_0 =~= self@->KeyValue_0);
                r
            },
            SystemCalls::Name(ids) => {
                let mut copy: Vec<SystemCallId> = Vec::new();
                let mut i: usize = 0;
                while i < ids.len()
                    invariant
                        i <= ids.len(),
                        copy@.len() == i,
                        forall|j: int| 0 <= j < i ==> copy@[j].0 == ids@[j].0,
                    decreases ids.len() - i,
                {
                    copy.push(ids[i]);
                    i = i + 1;
                }
                let r = SystemCalls::Name(copy);
                assert(r@->Name_0 =~= self@->Name_0);
                r
            },
        }
    }
}

impl KernelCapability {
    /// A copy with the same contents.
    pub fn duplicate(&self) -> (r: KernelCapability)
        ensures
            r@ == self@,
    {
        match self {
            KernelCapability::ThreadInfo {
                highest_priority,
                lowest_priority,
                max_core_number,
                min_core_number,
            } => KernelCapability::ThreadInfo {
                highest_priority: *highest_priority,
                lowest_priority: *lowest_priority,
                max_core_number: *max_core_number,
                min_core_number: *min_core_number,
            },
            KernelCapability::EnableSystemCalls(calls) => KernelCapability::EnableSystemCalls(
                calls.duplicate(),
            ),
            KernelCapability::MemoryMap { address, size, is_ro, is_io } => KernelCapability::MemoryMap {
                address: *address,
                size: *size,
                is_ro: *is_ro,
                is_io: *is_io,
            },
            KernelCapability::IoMemoryMap(page) => KernelCapability::IoMemoryMap(*page),
            KernelCapability::EnableInterrupts(pair) => KernelCapability::EnableInterrupts(*pair),
            KernelCapability::MiscParams(prog_type) => KernelCapability::MiscParams(prog_type.duplicate()),
            KernelCapability::KernelVersion(kern_ver) => KernelCapability::KernelVersion(
                kern_ver.duplicate(),
            ),
            KernelCapability::HandleTableSize(size) => KernelCapability::HandleTableSize(*size),
            KernelCapability::DebugFlags {
                allow_debug,
                force_debug_prod,
                force_debug,
            } => KernelCapability::DebugFlags {
                allow_debug: *allow_debug,
                force_debug_prod: *force_debug_prod,
                force_debug: *force_debug,
            },
        }
    }
}

/// Whether the lowest clear bit of `word` is bit `width`: the word starts
/// with a run of exactly `width` set bits.
pub open spec fn has_tag(word: u32, width: u32) -> bool {
    word & ((((1u32 << width) << 1) - 1) as u32) == ((1u32 << width) - 1) as u32
}

impl CapabilityModel {
    /// The length of the run of set bits that starts each word of the
    /// capability.
    pub open spec fn tag_width(self) -> u32 {
        match self {
            CapabilityModel::ThreadInfo { .. } => 3,
            CapabilityModel::EnableSystemCalls(_) => 4,
            CapabilityModel::MemoryMap { .. } => 6,
            CapabilityModel::IoMemoryMap(_) => 7,
            CapabilityModel::EnableInterrupts { .. } => 11,
            CapabilityModel::MiscParams(_) => 13,
            CapabilityModel::KernelVersion(_) => 14,
            CapabilityModel::HandleTableSize(_) => 15,
            CapabilityModel::DebugFlags { .. } => 16,
        }
    }

    /// Every word of a capability starts with the tag of its kind: as many
    /// set bits as [`CapabilityModel::tag_width`] says, then a clear bit.
    pub proof fn lemma_words_carry_tag(self)
        ensures
            self.encoding() matches Ok(words) ==> forall|i: int|
                0 <= i < words.len() ==> has_tag(#[trigger] words[i], self.tag_width()),
    {
        match self {
            CapabilityModel::ThreadInfo {
                highest_priority,
                lowest_priority,
                max_core_number,
                min_core_number,
            } => {
                let a: u32 = highest_priority as u32;
                let b: u32 = lowest_priority as u32;
                let c: u32 = min_core_number as u32;
                let d: u32 = max_core_number as u32;
                assert(has_tag(0b111u32 | (a << 4) | (b << 10) | (c << 16) | (d << 24), 3))
                    by (bit_vector);
            },
            CapabilityModel::EnableSystemCalls(calls) => {
                if all_in_range(calls.numbers()) {
                    let words = syscall_words(calls.numbers());
                    lemma_syscall_words(calls.numbers());
                    assert forall|i: int| 0 <= i < words.len() implies has_tag(#[trigger] words[i], 4) by {
                        let w = words[i];
                        lemma_syscall_mask_bits(calls.numbers(), (w >> 29) as nat, 0);
                        assert(has_tag(w, 4)) by (bit_vector)
                            requires
                                w & 0x1f == 0xf,
                        ;
                    }
                }
            },
            CapabilityModel::MemoryMap { address, size, is_ro, is_io } => {
                let a: u32 = address as u32;
                let s: u32 = size as u32;
                let r: u32 = flag_bit(is_ro);
                let o: u32 = flag_bit(is_io);
                assert(has_tag(0b11_1111u32 | (a << 7) | (r << 31), 6) && has_tag(
                    0b11_1111u32 | (s << 7) | (o << 31),
                    6,
                )) by (bit_vector);
            },
            CapabilityModel::IoMemoryMap(page) => {
                let p: u32 = page as u32;
                assert(has_tag(0b111_1111u32 | (p << 8), 7)) by (bit_vector);
            },
            CapabilityModel::EnableInterrupts { first, second } => {
                let a: u32 = first as u32;
                let b: u32 = second as u32;
                assert(has_tag(0b111_1111_1111u32 | (a << 12) | (b << 22), 11)) by (bit_vector);
            },
            CapabilityModel::MiscParams(prog_type) => {
                if let Some(code) = prog_type.value() {
                    let c: u32 = code as u32;
                    assert(has_tag(0b1_1111_1111_1111u32 | (c << 14), 13)) by (bit_vector);
                }
            },
            CapabilityModel::KernelVersion(kern_ver) => {
                if let Some(version) = kern_ver.value() {
                    let v: u32 = version as u32;
                    assert(has_tag(0b11_1111_1111_1111u32 | (v << 15), 14)) by (bit_vector);
                }
            },
            CapabilityModel::HandleTableSize(size) => {
                let s: u32 = size as u32;
                assert(has_tag(0b111_1111_1111_1111u32 | (s << 16), 15)) by (bit_vector);
            },
            CapabilityModel::DebugFlags { allow_debug, force_debug_prod, force_debug } => {
                let a: u32 = flag_bit(allow_debug);
                let p: u32 = flag_bit(force_debug_prod);
                let f: u32 = flag_bit(force_debug);
                assert(has_tag(0b1111_1111_1111_1111u32 | (a << 17) | (p << 18) | (f << 19), 16))
                    by (bit_vector);
            },
        }
    }
}

/// The four numbers of a thread information word are read back from its
/// bits: the priorities from bits 4..10 and 10..16, the cores from bits
/// 16..24 and 24..32.
pub proof fn lemma_thread_info_round_trip(highest_priority: u8, lowest_priority: u8, min_core: u8, max_core: u8)
    requires
        highest_priority < 64,
        lowest_priority < 64,
    ensures
        ({
            let word = thread_info_word(highest_priority, lowest_priority, min_core, max_core);
            &&& (word >> 4) & 0x3f == highest_priority
            &&& (word >> 10) & 0x3f == lowest_priority
            &&& (word >> 16) & 0xff == min_core
            &&& (word >> 24) & 0xff == max_core
        }),
{
    let a: u32 = highest_priority as u32;
    let b: u32 = lowest_priority as u32;
    let c: u32 = min_core as u32;
    let d: u32 = max_core as u32;
    let word: u32 = 0b111u32 | (a << 4) | (b << 10) | (c << 16) | (d << 24);
    assert((word >> 4) & 0x3f == a && (word >> 10) & 0x3f == b && (word >> 16) & 0xff == c && (word
        >> 24) & 0xff == d) by (bit_vector)
        requires
            a < 64,
            b < 64,
            c < 256,
            d < 256,
            word == 0b111u32 | (a << 4) | (b << 10) | (c << 16) | (d << 24),
    ;
}

/// Debug flags are encoded exactly if at most one of the three is set; two
/// or three of them give the error `InvalidDebugFlags`.
pub proof fn lemma_debug_flags_exclude_each_other(allow_debug: bool, force_debug_prod: bool, force_debug: bool)
    ensures
        ({
            let flags = CapabilityModel::DebugFlags { allow_debug, force_debug_prod, force_debug };
            let two = (allow_debug && force_debug_prod) || (allow_debug && force_debug) || (
            force_debug_prod && force_debug);
            &&& two ==> flags.encoding() == Err::<Seq<u32>, ErrorModel>(ErrorModel::InvalidDebugFlags)
            &&& !two ==> flags.encoding() == Ok::<Seq<u32>, ErrorModel>(
                seq![debug_flags_word(allow_debug, force_debug_prod, force_debug)],
            )
        }),
{
}

/// The value and the flag of a memory map word are read back from its bits
/// 7..31 and 31.
pub proof fn lemma_memory_map_round_trip(value: u32, flag: bool)
    requires
        value < 0x100_0000,
    ensures
        (memory_map_word(value, flag) >> 7) & 0xff_ffff == value,
        memory_map_word(value, flag) >> 31 == flag_bit(flag),
{
    let f: u32 = flag_bit(flag);
    let word: u32 = 0b11_1111u32 | (value << 7) | (f << 31);
    assert((word >> 7) & 0xff_ffff == value && word >> 31 == f) by (bit_vector)
        requires
            value < 0x100_0000,
            f <= 1,
            word == 0b11_1111u32 | (value << 7) | (f << 31),
    ;
}

/// The page of a device memory word is read back from its bits 8..32.
pub proof fn lemma_io_memory_map_round_trip(page: u32)
    requires
        page < 0x100_0000,
    ensures
        io_memory_map_word(page) >> 8 == page,
{
    assert((0b111_1111u32 | (page << 8)) >> 8 == page) by (bit_vector)
        requires
            page < 0x100_0000,
    ;
}

/// The two lines of an interrupt word are read back from its bits 12..22
/// and 22..32.
pub proof fn lemma_interrupts_round_trip(first: u16, second: u16)
    requires
        first < 1024,
        second < 1024,
    ensures
        (interrupts_word(first, second) >> 12) & 0x3ff == first,
        interrupts_word(first, second) >> 22 == second,
{
    let a: u32 = first as u32;
    let b: u32 = second as u32;
    let word: u32 = 0b111_1111_1111u32 | (a << 12) | (b << 22);
    assert((word >> 12) & 0x3ff == a && word >> 22 == b) by (bit_vector)
        requires
            a < 1024,
            b < 1024,
            word == 0b111_1111_1111u32 | (a << 12) | (b << 22),
    ;
}

/// The program type, the kernel version and the size of the handle table
/// are read back from bits 14..17, 15..32 and 16..26 of their words.
pub proof fn lemma_small_fields_round_trip(code: u16, version: u16, size: u16)
    requires
        code <= 2,
        size < 1024,
    ensures
        (misc_params_word(code) >> 14) & 0x7 == code,
        kernel_version_word(version) >> 15 == version,
        (handle_table_word(size) >> 16) & 0x3ff == size,
{
    let c: u32 = code as u32;
    let v: u32 = version as u32;
    let s: u32 = size as u32;
    assert(((0b1_1111_1111_1111u32 | (c << 14)) >> 14) & 0x7 == c && (0b11_1111_1111_1111u32 | (v
        << 15)) >> 15 == v && ((0b111_1111_1111_1111u32 | (s << 16)) >> 16) & 0x3ff == s)
        by (bit_vector)
        requires
            c <= 2,
            v < 0x1_0000,
            s < 1024,
    ;
}

/// The three debug flags are read back from bits 17, 18 and 19 of their
/// word.
pub proof fn lemma_debug_flags_round_trip(allow_debug: bool, force_debug_prod: bool, force_debug: bool)
    ensures
        ({
            let word = debug_flags_word(allow_debug, force_debug_prod, force_debug);
            &&& (word >> 17) & 1 == flag_bit(allow_debug)
            &&& (word >> 18) & 1 == flag_bit(force_debug_prod)
            &&& (word >> 19) & 1 == flag_bit(force_debug)
        }),
{
    let a: u32 = flag_bit(allow_debug);
    let p: u32 = flag_bit(force_debug_prod);
    let f: u32 = flag_bit(force_debug);
    let word: u32 = 0b1111_1111_1111_1111u32 | (a << 17) | (p << 18) | (f << 19);
    assert((word >> 17) & 1 == a && (word >> 18) & 1 == p && (word >> 19) & 1 == f) by (bit_vector)
        requires
            a <= 1,
            p <= 1,
            f <= 1,
            word == 0b1111_1111_1111_1111u32 | (a << 17) | (p << 18) | (f << 19),
    ;
}

/// The two parts of a packed version are read back from its bits 4..16 and
/// 0..4.
pub proof fn lemma_packed_version_round_trip(major: u16, minor: u16)
    requires
        major < 4096,
        minor < 16,
    ensures
        packed_version(major, minor) >> 4 == major,
        packed_version(major, minor) & 0xf == minor,
{
    assert(((major << 4) | minor) >> 4 == major && ((major << 4) | minor) & 0xf == minor)
        by (bit_vector)
        requires
            major < 4096,
            minor < 16,
    ;
}

} // verus!
