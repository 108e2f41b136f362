//! The service table: for each service that a program may call or host, one
//! byte that holds the length of the name, then the name.

use crate::error::{bytes_result, ErrorModel, NpdmError};
use vstd::prelude::*;
use vstd::string::{StringExecFns, StringSliceAdditionalSpecFns};
use vstd::utf8::encode_utf8;

verus! {

/// A service name takes from 1 to 8 bytes.
pub open spec fn service_name_ok(name: Seq<char>) -> bool {
    1 <= encode_utf8(name).len() <= 8
}

/// The byte before a name of `len` bytes: `len - 1`, with the top bit set
/// for a service that the program hosts.
pub open spec fn service_prefix(len: nat, hosted: bool) -> u8 {
    if hosted {
        0x80u8 | ((len - 1) as u8)
    } else {
        (len - 1) as u8
    }
}

/// The entry of one service: the prefix, then the bytes of the name.
pub open spec fn service_entry(name: Seq<char>, hosted: bool) -> Seq<u8> {
    seq![service_prefix(encode_utf8(name).len(), hosted)] + encode_utf8(name)
}

/// The entries of `names`, in order.
pub open spec fn service_entries(names: Seq<Seq<char>>, hosted: bool) -> Seq<u8>
    decreases names.len(),
{
    if names.len() == 0 {
        Seq::empty()
    } else {
        service_entries(names.drop_last(), hosted) + service_entry(names.last(), hosted)
    }
}

/// Whether `names[at]` is the first name that is too short or too long.
pub open spec fn first_bad_name_at(names: Seq<Seq<char>>, at: int) -> bool {
    &&& 0 <= at < names.len()
    &&& !service_name_ok(names[at])
    &&& forall|j: int| 0 <= j < at ==> service_name_ok(#[trigger] names[j])
}

/// Whether every name has from 1 to 8 bytes.
pub open spec fn service_names_ok(names: Seq<Seq<char>>) -> bool {
    forall|j: int| 0 <= j < names.len() ==> service_name_ok(#[trigger] names[j])
}

/// The service table: the services that the program calls, then those that
/// it hosts. The first name that is too short or too long, the called ones
/// taken first, makes the table an error that names it.
pub open spec fn service_table(accessed: Seq<Seq<char>>, hosted: Seq<Seq<char>>) -> Result<Seq<u8>, ErrorModel> {
    if exists|at: int| first_bad_name_at(accessed, at) {
        let at = choose|at: int| first_bad_name_at(accessed, at);
        Err(ErrorModel::InvalidValue("accessed_services."@ + accessed[at]))
    } else if exists|at: int| first_bad_name_at(hosted, at) {
        let at = choose|at: int| first_bad_name_at(hosted, at);
        Err(ErrorModel::InvalidValue("hosted_services."@ + hosted[at]))
    } else {
        Ok(service_entries(accessed, false) + service_entries(hosted, true))
    }
}

/// The names as sequences of characters.
pub open spec fn names_of(names: Seq<String>) -> Seq<Seq<char>> {
    Seq::new(names.len(), |i: int| names[i]@)
}

/// The sum, over the names, of one plus the number of bytes of the name.
pub open spec fn encoded_len(names: Seq<Seq<char>>) -> nat
    decreases names.len(),
{
    if names.len() == 0 {
        0
    } else {
        encoded_len(names.drop_last()) + 1 + encode_utf8(names.last()).len()
    }
}

/// The entries of names take as many bytes as [`encoded_len`] says.
pub proof fn lemma_service_entries_len(names: Seq<Seq<char>>, hosted: bool)
    ensures
        service_entries(names, hosted).len() == encoded_len(names),
    decreases names.len(),
{
    if names.len() > 0 {
        lemma_service_entries_len(names.drop_last(), hosted);
    }
}

/// A table that is no error is as long as the two lists of names say.
pub proof fn lemma_service_table_len(accessed: Seq<Seq<char>>, hosted: Seq<Seq<char>>)
    ensures
        service_table(accessed, hosted) matches Ok(table) ==> table.len() == encoded_len(accessed)
            + encoded_len(hosted),
{
    lemma_service_entries_len(accessed, false);
    lemma_service_entries_len(hosted, true);
}

/// The table is an error exactly if some name is too short or too long.
pub proof fn lemma_service_table_ok(accessed: Seq<Seq<char>>, hosted: Seq<Seq<char>>)
    ensures
        service_table(accessed, hosted) is Ok <==> service_names_ok(accessed) && service_names_ok(
            hosted,
        ),
{
    lemma_first_bad_name(accessed);
    lemma_first_bad_name(hosted);
}

proof fn lemma_first_bad_name(names: Seq<Seq<char>>)
    ensures
        service_names_ok(names) <==> !exists|at: int| first_bad_name_at(names, at),
    decreases names.len(),
{
    if service_names_ok(names) {
        assert forall|at: int| !first_bad_name_at(names, at) by {}
    } else {
        let bad = choose|j: int| 0 <= j < names.len() && !service_name_ok(#[trigger] names[j]);
        lemma_first_bad_before(names, bad);
    }
}

proof fn lemma_first_bad_before(names: Seq<Seq<char>>, bad: int)
    requires
        0 <= bad < names.len(),
        !service_name_ok(names[bad]),
    ensures
        exists|at: int| first_bad_name_at(names, at),
    decreases bad,
{
    if forall|j: int| 0 <= j < bad ==> service_name_ok(#[trigger] names[j]) {
        assert(first_bad_name_at(names, bad));
    } else {
        let earlier = choose|j: int| 0 <= j < bad && !service_name_ok(#[trigger] names[j]);
        lemma_first_bad_before(names, earlier);
    }
}

/// How many bytes the entries of `sacs` take.
pub fn sac_encoded_len(sacs: &[String]) -> (r: usize)
    requires
        encoded_len(names_of(sacs@)) <= usize::MAX,
    ensures
        r == encoded_len(names_of(sacs@)),
{
    let ghost names = names_of(sacs@);
    let mut total: usize = 0;
    let mut i: usize = 0;
    assert(names.take(0) =~= Seq::<Seq<char>>::empty());
    while i < sacs.len()
        invariant
            i <= sacs.len(),
            names == names_of(sacs@),
            encoded_len(names) <= usize::MAX,
            total == encoded_len(names.take(i as int)),
        decreases sacs.len() - i,
    {
        let len: usize = sacs[i].as_str().len();
        proof {
            let longer = names.take(i + 1);
            assert(longer.drop_last() =~= names.take(i as int));
            assert(longer.last() == sacs@[i as int]@);
            lemma_encoded_len_grows(names, i + 1);
        }
        total = total + 1 + len;
        i = i + 1;
    }
    assert(names.take(sacs@.len() as int) =~= names);
    total
}

/// How many bytes the entries of `sacs` take, or `None` if the number does
/// not fit in a `usize`.
pub fn sac_encoded_len_checked(sacs: &[String]) -> (r: Option<usize>)
    ensures
        match r {
            Some(total) => total == encoded_len(names_of(sacs@)),
            None => encoded_len(names_of(sacs@)) > usize::MAX,
        },
{
    let ghost names = names_of(sacs@);
    let mut total: usize = 0;
    let mut i: usize = 0;
    assert(names.take(0) =~= Seq::<Seq<char>>::empty());
    while i < sacs.len()
        invariant
            i <= sacs.len(),
            names == names_of(sacs@),
            total == encoded_len(names.take(i as int)),
        decreases sacs.len() - i,
    {
        let len: usize = sacs[i].as_str().as_bytes().len();
        proof {
            let longer = names.take(i + 1);
            assert(longer.drop_last() =~= names.take(i as int));
            assert(longer.last() == sacs@[i as int]@);
            lemma_encoded_len_grows(names, i + 1);
        }
        if len == usize::MAX || total > usize::MAX - 1 - len {
            return None;
        }
        total = total + 1 + len;
        i = i + 1;
    }
    assert(names.take(sacs@.len() as int) =~= names);
    Some(total)
}

proof fn lemma_encoded_len_grows(names: Seq<Seq<char>>, k: int)
    requires
        0 <= k <= names.len(),
    ensures
        encoded_len(names.take(k)) <= encoded_len(names),
    decreases names.len() - k,
{
    if k == names.len() {
        assert(names.take(k) =~= names);
    } else {
        lemma_encoded_len_grows(names, k + 1);
        assert(names.take(k + 1).drop_last() =~= names.take(k));
    }
}

/// Appends the entries of `names`. Stops at the first name that is too
/// short or too long and returns its index.
fn push_service_entries(out: &mut Vec<u8>, names: &[String], hosted: bool) -> (r: Option<usize>)
    ensures
        match r {
            None => service_names_ok(names_of(names@)) && final(out)@ == old(out)@ + service_entries(
                names_of(names@),
                hosted,
            ),
            Some(at) => first_bad_name_at(names_of(names@), at as int),
        },
{
    let ghost all = names_of(names@);
    let mut i: usize = 0;
    assert(all.take(0) =~= Seq::<Seq<char>>::empty());
    assert(out@ =~= old(out)@ + service_entries(all.take(0), hosted));
    while i < names.len()
        invariant
            i <= names.len(),
            all == names_of(names@),
            forall|j: int| 0 <= j < i ==> service_name_ok(#[trigger] all[j]),
            out@ == old(out)@ + service_entries(all.take(i as int), hosted),
        decreases names.len() - i,
    {
        let elem: &str = names[i].as_str();
        let len: usize = elem.len();
        if len == 0 || len > 8 {
            assert(all[i as int] == names@[i as int]@);
            return Some(i);
        }
        let short: u8 = (len - 1) as u8;
        let prefix: u8 = if hosted {
            0x80u8 | short
        } else {
            short
        };
        let ghost before = out@;
        out.push(prefix);
        let bytes: &[u8] = elem.as_bytes();
        let mut k: usize = 0;
        while k < bytes.len()
            invariant
                k <= bytes.len(),
                out@ == before.push(prefix) + bytes@.take(k as int),
            decreases bytes.len() - k,
        {
            out.push(bytes[k]);
            assert(out@ =~= before.push(prefix) + bytes@.take(k + 1));
            k = k + 1;
        }
        proof {
            assert(bytes@.take(bytes@.len() as int) =~= bytes@);
            let longer = all.take(i + 1);
            assert(longer.drop_last() =~= all.take(i as int));
            assert(longer.last() == names@[i as int]@);
            assert(all[i as int] == names@[i as int]@);
            assert(out@ =~= old(out)@ + service_entries(longer, hosted));
        }
        i = i + 1;
    }
    assert(all.take(names@.len() as int) =~= all);
    None
}

/// Builds the service table from the names of the services that a program
/// calls and of those that it hosts.
pub fn encode_services(accessed: &[String], hosted: &[String]) -> (r: Result<Vec<u8>, NpdmError>)
    ensures
        bytes_result(r) == service_table(names_of(accessed@), names_of(hosted@)),
{
    let mut out: Vec<u8> = Vec::new();
    proof {
        lemma_first_bad_name(names_of(accessed@));
        lemma_first_bad_name(names_of(hosted@));
    }
    match push_service_entries(&mut out, accessed, false) {
        Some(at) => {
            proof {
                let chosen = choose|c: int| first_bad_name_at(names_of(accessed@), c);
                assert(chosen == at) by {
                    if chosen < at {
                        assert(service_name_ok(names_of(accessed@)[chosen]));
                    } else if at < chosen {
                        assert(service_name_ok(names_of(accessed@)[at as int]));
                    }
                }
            }
            let field: String = String::from_str("accessed_services.").concat(accessed[at].as_str());
            return Err(NpdmError::InvalidValue(field));
        },
        None => {},
    }
    match push_service_entries(&mut out, hosted, true) {
        Some(at) => {
            proof {
                let chosen = choose|c: int| first_bad_name_at(names_of(hosted@), c);
                assert(chosen == at) by {
                    if chosen < at {
                        assert(service_name_ok(names_of(hosted@)[chosen]));
                    } else if at < chosen {
                        assert(service_name_ok(names_of(hosted@)[at as int]));
                    }
                }
            }
            let field: String = String::from_str("hosted_services.").concat(hosted[at].as_str());
            return Err(NpdmError::InvalidValue(field));
        },
        None => {},
    }
    assert(out@ =~= service_entries(names_of(accessed@), false) + service_entries(
        names_of(hosted@),
        true,
    ));
    Ok(out)
}

} // verus!
