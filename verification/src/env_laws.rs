//! What an environment image holds, byte by byte.

use crate::text::{decimal, hexadecimal, lemma_first_index_is, lemma_first_index_none};
use crate::uboot_env::{env_with_crc, lookup, vars_in, EnvError, UbootEnv};
use vstd::prelude::*;
use vstd::utf8::*;

verus! {

/// A variable is looked up by its first occurrence.
pub proof fn law_lookup(vars: Seq<(Seq<char>, Seq<char>)>, key: Seq<char>, i: int)
    requires
        0 <= i < vars.len(),
        vars[i].0 == key,
        forall|j: int| 0 <= j < i ==> (#[trigger] vars[j]).0 != key,
    ensures
        lookup(vars, key) == Some(vars[i].1),
    decreases i,
{
    if i > 0 {
        let rest = vars.skip(1);
        assert(vars[0].0 != key);
        assert forall|j: int| 0 <= j < i - 1 implies (#[trigger] rest[j]).0 != key by {
            assert(rest[j] == vars[j + 1]);
        }
        law_lookup(rest, key, i - 1);
    }
}

/// A variable that does not occur has no value.
pub proof fn law_lookup_nothing(vars: Seq<(Seq<char>, Seq<char>)>, key: Seq<char>)
    requires
        forall|j: int| 0 <= j < vars.len() ==> (#[trigger] vars[j]).0 != key,
    ensures
        lookup(vars, key) is None,
    decreases vars.len(),
{
    if vars.len() > 0 {
        let rest = vars.skip(1);
        assert(vars[0].0 != key);
        assert forall|j: int| 0 <= j < rest.len() implies (#[trigger] rest[j]).0 != key by {
            assert(rest[j] == vars[j + 1]);
        }
        law_lookup_nothing(rest, key);
    }
}

/// An entry is a name, the byte 61 (`=`), a value and a zero. It stands for the variable of that
/// name and value, in front of those behind it; a name or a value that is no text is refused.
pub proof fn law_entry(key: Seq<u8>, value: Seq<u8>, rest: Seq<u8>)
    requires
        !key.contains(0u8),
        !key.contains(61u8),
        !value.contains(0u8),
    ensures
        ({
            let r = vars_in(key + seq![61u8] + value + seq![0u8] + rest);
            if !valid_utf8(key) {
                r is Err && r->Err_0 == EnvError::KeyNotUtf8
            } else if !valid_utf8(value) {
                r is Err && r->Err_0 == EnvError::ValueNotUtf8
            } else if vars_in(rest) is Err {
                r is Err && r->Err_0 == vars_in(rest)->Err_0
            } else {
                r is Ok && r->Ok_0 == seq![(decode_utf8(key), decode_utf8(value))] + vars_in(
                    rest,
                )->Ok_0
            }
        }),
{
    let entry = key + seq![61u8] + value;
    let data = entry + seq![0u8] + rest;
    assert(key + seq![61u8] + value + seq![0u8] + rest =~= data);
    let nul = entry.len() as int;
    assert forall|j: int| 0 <= j < nul implies #[trigger] data[j] != 0u8 by {
        if j < key.len() {
            assert(data[j] == key[j]);
            assert(key.contains(key[j]));
        } else if j > key.len() {
            assert(data[j] == value[j - key.len() - 1]);
            assert(value.contains(value[j - key.len() - 1]));
        }
    }
    lemma_first_index_is(data, 0u8, nul);
    assert(data.take(nul) =~= entry);
    let eq = key.len() as int;
    assert forall|j: int| 0 <= j < eq implies #[trigger] entry[j] != 61u8 by {
        assert(entry[j] == key[j]);
        assert(key.contains(key[j]));
    }
    lemma_first_index_is(entry, 61u8, eq);
    assert(entry.take(eq) =~= key);
    assert(entry.skip(eq + 1) =~= value);
    assert(data.skip(nul + 1) =~= rest);
}

/// The entries end where there is no further zero, at an empty entry, and at one without the byte
/// 61.
pub proof fn law_end_of_entries(entry: Seq<u8>, rest: Seq<u8>)
    requires
        !entry.contains(0u8),
    ensures
        vars_in(entry) is Ok && vars_in(entry)->Ok_0.len() == 0,
        vars_in(seq![0u8] + rest) is Ok && vars_in(seq![0u8] + rest)->Ok_0.len() == 0,
        !entry.contains(61u8) ==> {
            let r = vars_in(entry + seq![0u8] + rest);
            r is Ok && r->Ok_0.len() == 0
        },
{
    assert forall|j: int| 0 <= j < entry.len() implies #[trigger] entry[j] != 0u8 by {
        assert(entry.contains(entry[j]));
    }
    lemma_first_index_none(entry, 0u8);
    lemma_first_index_is(seq![0u8] + rest, 0u8, 0);
    let data = entry + seq![0u8] + rest;
    let n = entry.len() as int;
    assert forall|j: int| 0 <= j < n implies #[trigger] data[j] != 0u8 by {
        assert(data[j] == entry[j]);
    }
    lemma_first_index_is(data, 0u8, n);
    assert(data.take(n) =~= entry);
    if !entry.contains(61u8) {
        assert forall|j: int| 0 <= j < entry.len() implies #[trigger] entry[j] != 61u8 by {
            assert(entry.contains(entry[j]));
        }
        lemma_first_index_none(entry, 61u8);
    }
}

/// An image has five bytes at least. Its first four, with the lowest or with the highest first,
/// are the checksum. The entries come behind it, or behind one more byte of 0 or 1 if a letter
/// or an underscore follows that.
pub proof fn law_image(env: Seq<u8>, computed: u32)
    requires
        env.len() <= usize::MAX,
    ensures
        ({
            let r = env_with_crc(env, computed);
            let le = env[0] + env[1] * 256 + env[2] * 65536 + env[3] * 16777216;
            let be = env[3] + env[2] * 256 + env[1] * 65536 + env[0] * 16777216;
            let named = env.len() > 5 && (65 <= env[5] <= 90 || 97 <= env[5] <= 122 || env[5]
                == 95);
            if env.len() < 5 {
                r is Err && r->Err_0 == (EnvError::TooSmall { len: env.len() as usize })
            } else if le != computed && be != computed {
                &&& r is Err
                &&& r->Err_0 is CrcMismatch
                &&& r->Err_0->stored_le == le
                &&& r->Err_0->stored_be == be
                &&& r->Err_0->computed == computed
                &&& r->Err_0->CrcMismatch_len == env.len()
            } else if (env[4] == 0 || env[4] == 1) && named {
                r == vars_in(env.skip(5))
            } else {
                r == vars_in(env.skip(4))
            }
        }),
{
}

/// What is seen of an environment are its variables.
pub proof fn law_env_view(env: UbootEnv, i: int)
    ensures
        env@.len() == env.vars@.len(),
        0 <= i < env.vars@.len() ==> env@[i].0 == env.vars@[i].0@ && env@[i].1 == env.vars@[i].1@,
{
}

/// The texts of the errors tell the length and the checksums.
pub proof fn law_env_texts(n: usize, le: u32, be: u32, c: u32)
    ensures
        (EnvError::TooSmall { len: n }).spec_message() == "env image too small ("@ + decimal(
            n as nat,
        ) + " bytes)"@,
        (EnvError::CrcMismatch { stored_le: le, stored_be: be, computed: c, len: n }).spec_message()
            == "U-Boot env CRC32 mismatch: stored LE=0x"@ + hexadecimal(le as nat, 8) + " BE=0x"@
            + hexadecimal(be as nat, 8) + ", computed=0x"@ + hexadecimal(c as nat, 8)
            + " (file is "@ + decimal(n as nat) + " bytes)"@,
        EnvError::KeyNotUtf8.spec_message() == "U-Boot env entry has non-UTF-8 key"@,
        EnvError::ValueNotUtf8.spec_message() == "U-Boot env entry has non-UTF-8 value"@,
{
}

} // verus!
