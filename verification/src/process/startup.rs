//! The initial user stack of a new program image: argument count, argument and environment
//! pointers, the auxiliary vector, and the strings they point at.
use vstd::prelude::*;

use crate::address::{is_user, UserAddress, PAGE_SIZE};

use crate::encoding::{
    lemma_words_le_concat, lemma_words_le_push, lemma_words_le_read, lemma_words_le_single, push_u64_le,
    push_words, u64_at, words_le,
};
use super::ids::ProcessError;

verus! {

pub const AT_PHDR: u64 = 3;

pub const AT_PHENT: u64 = 4;

pub const AT_PHNUM: u64 = 5;

pub const AT_PAGESZ: u64 = 6;

pub const AT_BASE: u64 = 7;

pub const AT_ENTRY: u64 = 9;

pub const AT_SECURE: u64 = 23;

pub const AT_EXECFN: u64 = 31;

/// Entries of the auxiliary vector, its terminator included.
pub const AUX_ENTRIES: usize = 9;

/// What the auxiliary vector reports of the loaded executable.
#[derive(Clone, Copy, Debug, PartialEq, Eq)]
pub struct ProgramImage {
    /// Where the program headers are mapped.
    pub program_headers_address: u64,
    /// Size of one program header.
    pub program_header_size: u64,
    /// Number of program headers.
    pub program_header_count: u64,
    /// Entry point of the executable.
    pub entry: u64,
}

/// The user stack region, `[bottom, top)`.
#[derive(Clone, Copy, Debug, PartialEq, Eq)]
pub struct UserStack {
    pub top: u64,
    pub bottom: u64,
}

/// What a new program starts with: its path, arguments and environment, the executable's
/// layout, and where the interpreter was loaded (zero without one).
pub struct StartupStackData {
    pub path: Vec<u8>,
    pub argv: Vec<Vec<u8>>,
    pub envp: Vec<Vec<u8>>,
    pub executable: ProgramImage,
    pub interpreter_base: u64,
}

/// Bytes that `strings`, each terminated by a zero, take one after another.
pub open spec fn packed_len(strings: Seq<Vec<u8>>) -> nat
    decreases strings.len(),
{
    if strings.len() == 0 {
        0
    } else {
        packed_len(strings.drop_last()) + strings.last()@.len() + 1
    }
}

/// `strings`, each terminated by a zero, one after another.
pub open spec fn packed(strings: Seq<Vec<u8>>) -> Seq<u8>
    decreases strings.len(),
{
    if strings.len() == 0 {
        Seq::empty()
    } else {
        packed(strings.drop_last()) + strings.last()@ + seq![0u8]
    }
}

/// Number of words before the strings: the count, both pointer arrays with their terminators,
/// and the auxiliary vector.
pub open spec fn header_words(argv_count: int, envp_count: int) -> int {
    3 + argv_count + envp_count + 2 * AUX_ENTRIES
}

/// Bytes of the strings: the path, then the arguments, then the environment.
pub open spec fn strings_total(data: StartupStackData) -> nat {
    data.path@.len() + 1 + packed_len(data.argv@) + packed_len(data.envp@)
}

/// The addresses of `strings` packed from `start`.
pub open spec fn string_pointers(strings: Seq<Vec<u8>>, start: int) -> Seq<u64> {
    Seq::new(strings.len(), |i: int| (start + packed_len(strings.take(i))) as u64)
}

/// The auxiliary vector, as key/value words, ending with the null entry.
pub open spec fn auxiliary_words(image: ProgramImage, interpreter_base: u64, execfn: u64) -> Seq<u64> {
    seq![
        AT_PHDR,
        image.program_headers_address,
        AT_PHENT,
        image.program_header_size,
        AT_PHNUM,
        image.program_header_count,
        AT_ENTRY,
        image.entry,
        AT_BASE,
        interpreter_base,
        AT_PAGESZ,
        PAGE_SIZE,
        AT_EXECFN,
        execfn,
        AT_SECURE,
        0,
        0,
        0,
    ]
}

/// The words before the strings when the strings start at `strings_address`.
pub open spec fn header_contents(data: StartupStackData, strings_address: u64) -> Seq<u64> {
    let first = strings_address + data.path@.len() + 1;
    seq![data.argv@.len() as u64] + string_pointers(data.argv@, first) + seq![0u64]
        + string_pointers(data.envp@, first + packed_len(data.argv@)) + seq![0u64]
        + auxiliary_words(data.executable, data.interpreter_base, strings_address)
}

/// The whole startup data when its strings start at `strings_address`.
pub open spec fn stack_image(data: StartupStackData, strings_address: u64) -> Seq<u8> {
    words_le(header_contents(data, strings_address)) + data.path@ + seq![0u8] + packed(data.argv@)
        + packed(data.envp@)
}

/// Byte offset of the auxiliary vector in the startup data of a program with `argc` arguments
/// and `envc` environment strings: after the count and the two zero-terminated pointer arrays.
pub open spec fn auxiliary_offset(argc: int, envc: int) -> int {
    8 * (argc + envc + 3)
}

proof fn lemma_image_word(data: StartupStackData, strings_address: u64, k: int)
    requires
        0 <= k < header_contents(data, strings_address).len(),
    ensures
        u64_at(stack_image(data, strings_address), 8 * k) == header_contents(data, strings_address)[k],
{
    let words = header_contents(data, strings_address);
    let image = stack_image(data, strings_address);
    let head = words_le(words);
    lemma_words_le_read(words, k);
    assert(image.subrange(8 * k, 8 * k + 8) =~= head.subrange(8 * k, 8 * k + 8));
}

/// The auxiliary vector a new program finds: after its count and pointer arrays, key/value
/// pairs in which `AT_ENTRY` carries the executable's entry point and `AT_BASE` the
/// interpreter's load address (what the dynamic loader jumps to and relocates itself by),
/// `AT_PHDR`, `AT_PHENT` and `AT_PHNUM` the executable's program headers, `AT_PAGESZ` the page
/// size, `AT_EXECFN` the address of the program's path (the first string), `AT_SECURE` zero,
/// and a null pair ending it.
pub proof fn lemma_auxiliary_vector(data: StartupStackData, strings_address: u64)
    ensures
        ({
            let image = stack_image(data, strings_address);
            let aux = auxiliary_offset(data.argv@.len() as int, data.envp@.len() as int);
            &&& u64_at(image, aux) == AT_PHDR
            &&& u64_at(image, aux + 8) == data.executable.program_headers_address
            &&& u64_at(image, aux + 16) == AT_PHENT
            &&& u64_at(image, aux + 24) == data.executable.program_header_size
            &&& u64_at(image, aux + 32) == AT_PHNUM
            &&& u64_at(image, aux + 40) == data.executable.program_header_count
            &&& u64_at(image, aux + 48) == AT_ENTRY
            &&& u64_at(image, aux + 56) == data.executable.entry
            &&& u64_at(image, aux + 64) == AT_BASE
            &&& u64_at(image, aux + 72) == data.interpreter_base
            &&& u64_at(image, aux + 80) == AT_PAGESZ
            &&& u64_at(image, aux + 88) == PAGE_SIZE
            &&& u64_at(image, aux + 96) == AT_EXECFN
            &&& u64_at(image, aux + 104) == strings_address
            &&& u64_at(image, aux + 112) == AT_SECURE
            &&& u64_at(image, aux + 120) == 0
            &&& u64_at(image, aux + 128) == 0
            &&& u64_at(image, aux + 136) == 0
        }),
{
    let n = data.argv@.len() as int;
    let m = data.envp@.len() as int;
    let words = header_contents(data, strings_address);
    let first = strings_address + data.path@.len() + 1;
    let aux = auxiliary_words(data.executable, data.interpreter_base, strings_address);
    let prefix = seq![n as u64] + string_pointers(data.argv@, first) + seq![0u64]
        + string_pointers(data.envp@, first + packed_len(data.argv@)) + seq![0u64];
    assert(prefix.len() == n + m + 3);
    assert(words == prefix + aux);
    assert forall|j: int| 0 <= j < 18 implies #[trigger] words[n + m + 3 + j] == aux[j] by {}
    let image = stack_image(data, strings_address);
    assert forall|i: int| 0 <= i < 18 implies u64_at(image, auxiliary_offset(n, m) + 8 * i)
        == #[trigger] aux[i] by {
        lemma_image_word(data, strings_address, n + m + 3 + i);
        assert(auxiliary_offset(n, m) + 8 * i == 8 * (n + m + 3 + i));
    }
    assert(aux[6] == AT_ENTRY && aux[7] == data.executable.entry);
    assert(aux[8] == AT_BASE && aux[9] == data.interpreter_base);
    assert(aux[0] == AT_PHDR && aux[1] == data.executable.program_headers_address);
    assert(aux[2] == AT_PHENT && aux[3] == data.executable.program_header_size);
    assert(aux[4] == AT_PHNUM && aux[5] == data.executable.program_header_count);
    assert(aux[10] == AT_PAGESZ && aux[11] == PAGE_SIZE);
    assert(aux[12] == AT_EXECFN && aux[13] == strings_address);
    assert(aux[14] == AT_SECURE && aux[15] == 0 && aux[16] == 0 && aux[17] == 0);
}

/// `n` rounded up to a multiple of 16.
pub open spec fn round_up_16(n: int) -> int {
    (n + 15) / 16 * 16
}

proof fn lemma_packed(strings: Seq<Vec<u8>>)
    ensures
        packed(strings).len() == packed_len(strings),
    decreases strings.len(),
{
    if strings.len() > 0 {
        lemma_packed(strings.drop_last());
    }
}

proof fn lemma_packed_len_prefix(strings: Seq<Vec<u8>>, i: int)
    requires
        0 <= i <= strings.len(),
    ensures
        packed_len(strings.take(i)) <= packed_len(strings),
    decreases strings.len() - i,
{
    if i < strings.len() {
        lemma_packed_len_prefix(strings, i + 1);
        assert(strings.take(i + 1).drop_last() =~= strings.take(i));
    } else {
        assert(strings.take(i) =~= strings);
    }
}

/// Bytes of the words before the strings; `ArgumentsTooLarge` when they overflow.
pub fn header_size(argv_count: usize, envp_count: usize) -> (size: Result<usize, ProcessError>)
    ensures
        8 * header_words(argv_count as int, envp_count as int) <= usize::MAX ==> size == Ok::<
            usize,
            ProcessError,
        >((8 * header_words(argv_count as int, envp_count as int)) as usize),
        8 * header_words(argv_count as int, envp_count as int) > usize::MAX ==> size == Err::<
            usize,
            ProcessError,
        >(ProcessError::ArgumentsTooLarge),
{
    let words = match 3usize.checked_add(argv_count) {
        Some(count) => match count.checked_add(envp_count) {
            Some(count) => count.checked_add(AUX_ENTRIES * 2),
            None => None,
        },
        None => None,
    };
    match words {
        Some(words) => match words.checked_mul(8) {
            Some(size) => Ok(size),
            None => Err(ProcessError::ArgumentsTooLarge),
        },
        None => Err(ProcessError::ArgumentsTooLarge),
    }
}

/// Adds the packed size of `strings` to `size`; `None` when it overflows.
fn add_packed(size: usize, strings: &Vec<Vec<u8>>) -> (total: Option<usize>)
    ensures
        size + packed_len(strings@) <= usize::MAX ==> total == Some((size + packed_len(strings@)) as usize),
        size + packed_len(strings@) > usize::MAX ==> total is None,
{
    let mut total = size;
    let mut i: usize = 0;
    while i < strings.len()
        invariant
            0 <= i <= strings.len(),
            total == size + packed_len(strings@.take(i as int)),
        decreases strings.len() - i,
    {
        proof {
            assert(strings@.take(i + 1).drop_last() =~= strings@.take(i as int));
            lemma_packed_len_prefix(strings@, i + 1);
        }
        let length = strings[i].len();
        match total.checked_add(length) {
            Some(next) => match next.checked_add(1) {
                Some(next) => total = next,
                None => return None,
            },
            None => return None,
        }
        i = i + 1;
    }
    proof {
        assert(strings@.take(i as int) =~= strings@);
    }
    Some(total)
}

/// Bytes of the strings; `ArgumentsTooLarge` when they overflow.
pub fn strings_size(path: &Vec<u8>, argv: &Vec<Vec<u8>>, envp: &Vec<Vec<u8>>) -> (size: Result<
    usize,
    ProcessError,
>)
    ensures
        path@.len() + 1 + packed_len(argv@) + packed_len(envp@) <= usize::MAX ==> size == Ok::<
            usize,
            ProcessError,
        >((path@.len() + 1 + packed_len(argv@) + packed_len(envp@)) as usize),
        path@.len() + 1 + packed_len(argv@) + packed_len(envp@) > usize::MAX ==> size == Err::<
            usize,
            ProcessError,
        >(ProcessError::ArgumentsTooLarge),
{
    let first = match path.len().checked_add(1) {
        Some(first) => first,
        None => return Err(ProcessError::ArgumentsTooLarge),
    };
    match add_packed(first, argv) {
        Some(size) => match add_packed(size, envp) {
            Some(total) => Ok(total),
            None => Err(ProcessError::ArgumentsTooLarge),
        },
        None => Err(ProcessError::ArgumentsTooLarge),
    }
}

/// Where `data_size` bytes of startup data begin: that size rounded up to 16 below the top of
/// the stack. `ArgumentsTooLarge` when it does not fit in the stack, `InvalidAddressSpace` when
/// the result is no user address.
pub fn stack_pointer(stack: &UserStack, data_size: usize) -> (pointer: Result<UserAddress, ProcessError>)
    requires
        stack.bottom <= stack.top,
    ensures
        data_size + 15 > usize::MAX ==> pointer == Err::<UserAddress, ProcessError>(
            ProcessError::ArgumentsTooLarge,
        ),
        data_size + 15 <= usize::MAX && round_up_16(data_size as int) > stack.top - stack.bottom
            ==> pointer == Err::<UserAddress, ProcessError>(ProcessError::ArgumentsTooLarge),
        data_size + 15 <= usize::MAX && round_up_16(data_size as int) <= stack.top - stack.bottom
            ==> {
            &&& !is_user((stack.top - round_up_16(data_size as int)) as u64) ==> pointer == Err::<
                UserAddress,
                ProcessError,
            >(ProcessError::InvalidAddressSpace)
            &&& is_user((stack.top - round_up_16(data_size as int)) as u64) ==> (pointer matches Ok(
                address,
            ) && address.value() == stack.top - round_up_16(data_size as int))
        },
{
    let aligned = match data_size.checked_add(15) {
        Some(size) => size / 16 * 16,
        None => return Err(ProcessError::ArgumentsTooLarge),
    };
    let available = stack.top - stack.bottom;
    if aligned as u64 > available {
        return Err(ProcessError::ArgumentsTooLarge);
    }
    match UserAddress::new(stack.top - aligned as u64) {
        Some(address) => Ok(address),
        None => Err(ProcessError::InvalidAddressSpace),
    }
}

/// Appends the addresses of `strings` packed from `*next`, advancing `*next` past them;
/// `InvalidAddressSpace` when the addresses overflow.
fn push_string_pointers(data: &mut Vec<u8>, strings: &Vec<Vec<u8>>, next: &mut u64) -> (result:
    Result<(), ProcessError>)
    ensures
        *old(next) + packed_len(strings@) > u64::MAX ==> result == Err::<(), ProcessError>(
            ProcessError::InvalidAddressSpace,
        ),
        *old(next) + packed_len(strings@) <= u64::MAX ==> {
            &&& result == Ok::<(), ProcessError>(())
            &&& *final(next) == *old(next) + packed_len(strings@)
            &&& final(data)@ == old(data)@ + words_le(string_pointers(strings@, *old(next) as int))
        },
{
    let ghost start = *next;
    let ghost base = data@;
    proof {
        assert(string_pointers(strings@.take(0), start as int) =~= Seq::<u64>::empty());
        assert(words_le(Seq::<u64>::empty()) =~= Seq::<u8>::empty());
        assert(data@ =~= base + words_le(string_pointers(strings@.take(0), start as int)));
    }
    let mut i: usize = 0;
    while i < strings.len()
        invariant
            0 <= i <= strings.len(),
            start == *old(next),
            *next == start + packed_len(strings@.take(i as int)),
            data@ == base + words_le(string_pointers(strings@.take(i as int), start as int)),
        decreases strings.len() - i,
    {
        let address = *next;
        push_u64_le(data, address);
        proof {
            let before = strings@.take(i as int);
            let after = strings@.take(i + 1);
            assert(after.drop_last() =~= before);
            assert forall|j: int| 0 <= j < i implies #[trigger] after.take(j) =~= before.take(j) by {}
            assert(after.take(i as int) =~= before);
            assert(string_pointers(after, start as int) =~= string_pointers(before, start as int).push(
                address,
            ));
            lemma_words_le_push(string_pointers(before, start as int), address);
            lemma_packed_len_prefix(strings@, i + 1);
        }
        let length = strings[i].len();
        match address.checked_add(length as u64) {
            Some(value) => match value.checked_add(1) {
                Some(value) => *next = value,
                None => return Err(ProcessError::InvalidAddressSpace),
            },
            None => return Err(ProcessError::InvalidAddressSpace),
        }
        i = i + 1;
    }
    proof {
        assert(strings@.take(i as int) =~= strings@);
    }
    Ok(())
}

/// Appends `bytes` and a terminating zero.
fn append_string(data: &mut Vec<u8>, bytes: &Vec<u8>)
    ensures
        final(data)@ == old(data)@ + bytes@ + seq![0u8],
{
    let ghost base = data@;
    let mut i: usize = 0;
    while i < bytes.len()
        invariant
            0 <= i <= bytes.len(),
            data@ == base + bytes@.take(i as int),
        decreases bytes.len() - i,
    {
        data.push(bytes[i]);
        proof {
            assert(bytes@.take(i + 1) =~= bytes@.take(i as int).push(bytes@[i as int]));
        }
        i = i + 1;
    }
    data.push(0);
    proof {
        assert(bytes@.take(i as int) =~= bytes@);
    }
}

/// Appends each of `strings` with its terminating zero.
fn append_strings(data: &mut Vec<u8>, strings: &Vec<Vec<u8>>)
    ensures
        final(data)@ == old(data)@ + packed(strings@),
{
    let ghost base = data@;
    proof {
        assert(strings@.take(0) =~= Seq::<Vec<u8>>::empty());
        assert(data@ =~= base + packed(strings@.take(0)));
    }
    let mut i: usize = 0;
    while i < strings.len()
        invariant
            0 <= i <= strings.len(),
            data@ == base + packed(strings@.take(i as int)),
        decreases strings.len() - i,
    {
        append_string(data, &strings[i]);
        proof {
            assert(strings@.take(i + 1).drop_last() =~= strings@.take(i as int));
            assert(data@ =~= base + packed(strings@.take(i + 1)));
        }
        i = i + 1;
    }
    proof {
        assert(strings@.take(i as int) =~= strings@);
    }
}

/// Appends the auxiliary vector: the program headers, the entry point, the interpreter base,
/// the page size, the program's path and the secure flag, then the null entry.
fn push_auxiliary(data: &mut Vec<u8>, execfn: u64, executable: &ProgramImage, interpreter_base: u64)
    ensures
        final(data)@ == old(data)@ + words_le(auxiliary_words(*executable, interpreter_base, execfn)),
{
    let entries: Vec<u64> = vec![
        AT_PHDR,
        executable.program_headers_address,
        AT_PHENT,
        executable.program_header_size,
        AT_PHNUM,
        executable.program_header_count,
        AT_ENTRY,
        executable.entry,
        AT_BASE,
        interpreter_base,
        AT_PAGESZ,
        PAGE_SIZE,
        AT_EXECFN,
        execfn,
        AT_SECURE,
        0,
        0,
        0,
    ];
    proof {
        assert(entries@ =~= auxiliary_words(*executable, interpreter_base, execfn));
    }
    push_words(data, &entries);
}

/// Encodes the startup data, `data_size` bytes, whose strings start at `strings_address`;
/// `OutOfMemory` when room for those bytes cannot be reserved, which depends on the allocator,
/// and otherwise `InvalidAddressSpace` when the strings would run past the end of the address
/// space.
pub fn encode(data: &StartupStackData, data_size: usize, strings_address: u64) -> (result: Result<
    Vec<u8>,
    ProcessError,
>)
    ensures
        !(result matches Err(ProcessError::OutOfMemory)) ==> {
            &&& strings_address + strings_total(*data) > u64::MAX ==> result == Err::<
                Vec<u8>,
                ProcessError,
            >(ProcessError::InvalidAddressSpace)
            &&& strings_address + strings_total(*data) <= u64::MAX ==> (result matches Ok(bytes)
                && bytes@ == stack_image(*data, strings_address))
        },
{
    let mut bytes: Vec<u8> = Vec::new();
    if bytes.try_reserve(data_size).is_err() {
        return Err(ProcessError::OutOfMemory);
    }
    let mut next = match strings_address.checked_add(data.path.len() as u64) {
        Some(end) => match end.checked_add(1) {
            Some(next) => next,
            None => return Err(ProcessError::InvalidAddressSpace),
        },
        None => return Err(ProcessError::InvalidAddressSpace),
    };
    let ghost first = next;
    push_u64_le(&mut bytes, data.argv.len() as u64);
    match push_string_pointers(&mut bytes, &data.argv, &mut next) {
        Ok(()) => {},
        Err(error) => return Err(error),
    }
    let ghost second = next;
    push_u64_le(&mut bytes, 0);
    match push_string_pointers(&mut bytes, &data.envp, &mut next) {
        Ok(()) => {},
        Err(error) => return Err(error),
    }
    push_u64_le(&mut bytes, 0);
    push_auxiliary(&mut bytes, strings_address, &data.executable, data.interpreter_base);
    let ghost header_end = bytes@;
    append_string(&mut bytes, &data.path);
    append_strings(&mut bytes, &data.argv);
    append_strings(&mut bytes, &data.envp);
    proof {
        let argv_pointers = string_pointers(data.argv@, first as int);
        let envp_pointers = string_pointers(data.envp@, second as int);
        let aux = auxiliary_words(data.executable, data.interpreter_base, strings_address);
        let words = header_contents(*data, strings_address);
        assert(words =~= seq![data.argv@.len() as u64].add(argv_pointers).push(0u64).add(
            envp_pointers,
        ).push(0u64).add(aux));
        assert(words_le(seq![data.argv@.len() as u64]) =~= words_le(Seq::<u64>::empty().push(
            data.argv@.len() as u64,
        )));
        lemma_words_le_concat(seq![data.argv@.len() as u64], argv_pointers);
        lemma_words_le_concat(seq![data.argv@.len() as u64].add(argv_pointers), seq![0u64]);
        lemma_words_le_concat(seq![data.argv@.len() as u64].add(argv_pointers).push(0u64), envp_pointers);
        lemma_words_le_concat(
            seq![data.argv@.len() as u64].add(argv_pointers).push(0u64).add(envp_pointers),
            seq![0u64],
        );
        lemma_words_le_concat(
            seq![data.argv@.len() as u64].add(argv_pointers).push(0u64).add(envp_pointers).push(0u64),
            aux,
        );
        lemma_words_le_single(data.argv@.len() as u64);
        lemma_words_le_single(0u64);
        assert(seq![data.argv@.len() as u64].add(argv_pointers).push(0u64) =~= seq![data.argv@.len() as u64].add(argv_pointers).add(seq![0u64]));
        assert(seq![data.argv@.len() as u64].add(argv_pointers).push(0u64).add(envp_pointers).push(0u64) =~= seq![data.argv@.len() as u64].add(argv_pointers).push(0u64).add(envp_pointers).add(seq![0u64]));
        assert(header_end =~= words_le(words));
        assert(bytes@ =~= stack_image(*data, strings_address));
    }
    Ok(bytes)
}

/// Where the startup data goes in `stack`: its first byte and the first byte of its strings, or
/// why it cannot be placed. The checks run in this order: the header size, the strings' size,
/// their sum, the room in the stack, and whether both addresses are user addresses.
pub open spec fn startup_layout(stack: UserStack, data: StartupStackData) -> Result<(u64, u64), ProcessError> {
    let header = 8 * header_words(data.argv@.len() as int, data.envp@.len() as int);
    let strings = strings_total(data);
    let size = header + strings;
    if header > usize::MAX || strings > usize::MAX || size > usize::MAX || size + 15 > usize::MAX
        || round_up_16(size) > stack.top - stack.bottom {
        Err(ProcessError::ArgumentsTooLarge)
    } else if !is_user((stack.top - round_up_16(size)) as u64) {
        Err(ProcessError::InvalidAddressSpace)
    } else {
        let pointer = stack.top - round_up_16(size);
        if pointer + header > u64::MAX || !is_user((pointer + header) as u64) {
            Err(ProcessError::InvalidAddressSpace)
        } else {
            Ok((pointer as u64, (pointer + header) as u64))
        }
    }
}

/// Lays out the startup data of a new program in `stack`: the stack pointer the program starts
/// with, and the bytes to write there; `OutOfMemory` when room for the bytes cannot be reserved,
/// which depends on the allocator.
pub fn plan_startup_stack(stack: &UserStack, data: &StartupStackData) -> (result: Result<
    (UserAddress, Vec<u8>),
    ProcessError,
>)
    requires
        stack.bottom <= stack.top,
    ensures
        match startup_layout(*stack, *data) {
            Err(error) => result matches Err(e) && e == error,
            Ok((pointer, strings)) => (result matches Err(e) && e == ProcessError::OutOfMemory) || (
            result matches Ok((address, bytes)) && address.value() == pointer && bytes@ == stack_image(
                *data,
                strings,
            )),
        },
        result matches Ok((address, bytes)) ==> {
            &&& stack.bottom <= address.value()
            &&& address.value() + bytes@.len() <= stack.top
            &&& (stack.top - address.value()) % 16 == 0
        },
        result matches Ok((address, bytes)) ==> {
            let aux = auxiliary_offset(data.argv@.len() as int, data.envp@.len() as int);
            &&& u64_at(bytes@, aux + 48) == AT_ENTRY
            &&& u64_at(bytes@, aux + 56) == data.executable.entry
            &&& u64_at(bytes@, aux + 64) == AT_BASE
            &&& u64_at(bytes@, aux + 72) == data.interpreter_base
        },
{
    let header = match header_size(data.argv.len(), data.envp.len()) {
        Ok(size) => size,
        Err(error) => return Err(error),
    };
    let strings = match strings_size(&data.path, &data.argv, &data.envp) {
        Ok(size) => size,
        Err(error) => return Err(error),
    };
    let data_size = match header.checked_add(strings) {
        Some(size) => size,
        None => return Err(ProcessError::ArgumentsTooLarge),
    };
    let pointer = match stack_pointer(stack, data_size) {
        Ok(pointer) => pointer,
        Err(error) => return Err(error),
    };
    let strings_address = match pointer.checked_add(header as u64) {
        Some(address) => address,
        None => return Err(ProcessError::InvalidAddressSpace),
    };
    proof {
        lemma_packed(data.argv@);
        lemma_packed(data.envp@);
        let total = 8 * header_words(data.argv@.len() as int, data.envp@.len() as int);
        assert(round_up_16(data_size as int) >= data_size) by {
            assert((data_size + 15) / 16 * 16 >= data_size) by (nonlinear_arith)
                requires data_size >= 0;
        }
        assert(round_up_16(data_size as int) % 16 == 0) by {
            assert(((data_size + 15) / 16 * 16) % 16 == 0) by (nonlinear_arith)
                requires data_size >= 0;
        }
    }
    match encode(data, data_size, strings_address.as_u64()) {
        Ok(bytes) => {
            proof {
                assert(header_contents(*data, strings_address.value()).len() == header_words(
                    data.argv@.len() as int,
                    data.envp@.len() as int,
                ));
                lemma_auxiliary_vector(*data, strings_address.value());
            }
            Ok((pointer, bytes))
        },
        Err(error) => Err(error),
    }
}

} // verus!
