//! Parser for U-Boot environment images, as produced by `mkenvimage`
//! (`tools/mkenvimage.c` in the U-Boot tree):
//!
//! - bytes 0..4: CRC32 over everything that follows (bytes 4..end_of_image,
//!   including any padding). Little-endian by default; big-endian if
//!   mkenvimage was invoked with `-b`.
//! - byte 4 (only if mkenvimage was invoked with `-r`): redundant-env
//!   "active flags" byte, written as 0x01.
//! - then NUL-separated `KEY=VALUE` entries, terminated by an empty
//!   entry (i.e. a double NUL).
//! - the rest of the image is filled with the pad byte (0xFF by default).
//!
//! The CRC covers the flags byte (when present) and the padding. Both
//! endiannesses are tried for the stored CRC, so this works on either an
//! `-b`-built env or a default one.

use crate::text::{
    be32, decimal, decimal_text, find_byte, first_index, hex_text, hexadecimal, le32,
    lemma_first_index_is, read_be32, read_le32, same_text, utf8_text,
};
use vstd::prelude::*;
use vstd::slice::slice_subrange;
use vstd::utf8::*;

verus! {

/// The checksum that `crc32fast::hash` gives for the bytes.
pub uninterp spec fn crc32_of(data: Seq<u8>) -> u32;

/// `crc32fast::hash`: the CRC-32 of the bytes, a function of them alone.
#[verifier::external_body]
fn crc32(data: &[u8]) -> (r: u32)
    ensures
        r == crc32_of(data@),
{
    crc32fast::hash(data)
}

/// The variables of an environment, in the order of the image.
#[derive(Debug)]
pub struct UbootEnv {
    pub vars: Vec<(String, String)>,
}

/// What the variables of an environment hold.
pub open spec fn vars_view(vars: Seq<(String, String)>) -> Seq<(Seq<char>, Seq<char>)> {
    vars.map_values(|v: (String, String)| (v.0@, v.1@))
}

impl View for UbootEnv {
    type V = Seq<(Seq<char>, Seq<char>)>;

    open spec fn view(&self) -> Seq<(Seq<char>, Seq<char>)> {
        vars_view(self.vars@)
    }
}

/// Why an environment image is refused.
#[derive(Debug, Clone, Copy, PartialEq, Eq, Structural)]
pub enum EnvError {
    TooSmall { len: usize },
    CrcMismatch { stored_le: u32, stored_be: u32, computed: u32, len: usize },
    KeyNotUtf8,
    ValueNotUtf8,
}

impl EnvError {
    /// The text of an error.
    pub open spec fn spec_message(self) -> Seq<char> {
        match self {
            EnvError::TooSmall { len } => "env image too small ("@ + decimal(len as nat)
                + " bytes)"@,
            EnvError::CrcMismatch { stored_le, stored_be, computed, len } =>
                "U-Boot env CRC32 mismatch: stored LE=0x"@ + hexadecimal(stored_le as nat, 8)
                    + " BE=0x"@ + hexadecimal(stored_be as nat, 8) + ", computed=0x"@ + hexadecimal(
                    computed as nat,
                    8,
                ) + " (file is "@ + decimal(len as nat) + " bytes)"@,
            EnvError::KeyNotUtf8 => "U-Boot env entry has non-UTF-8 key"@,
            EnvError::ValueNotUtf8 => "U-Boot env entry has non-UTF-8 value"@,
        }
    }

    /// The text of this error.
    pub fn message(&self) -> (r: String)
        ensures
            r@ == self.spec_message(),
    {
        match self {
            EnvError::TooSmall { len } => {
                let mut r: String = "env image too small (".to_owned();
                r.append(&decimal_text(*len as u64));
                r.append(" bytes)");
                r
            },
            EnvError::CrcMismatch { stored_le, stored_be, computed, len } => {
                let mut r: String = "U-Boot env CRC32 mismatch: stored LE=0x".to_owned();
                r.append(&hex_text(*stored_le, 8));
                r.append(" BE=0x");
                r.append(&hex_text(*stored_be, 8));
                r.append(", computed=0x");
                r.append(&hex_text(*computed, 8));
                r.append(" (file is ");
                r.append(&decimal_text(*len as u64));
                r.append(" bytes)");
                r
            },
            EnvError::KeyNotUtf8 => "U-Boot env entry has non-UTF-8 key".to_owned(),
            EnvError::ValueNotUtf8 => "U-Boot env entry has non-UTF-8 value".to_owned(),
        }
    }
}

/// An ASCII letter or an underscore: what the name of a variable starts with.
pub open spec fn starts_name(b: u8) -> bool {
    65 <= b <= 90 || 97 <= b <= 122 || b == 95
}

/// Where the entries start: behind the flags byte, if byte 4 is one and a name follows it.
pub open spec fn entries_start(env: Seq<u8>) -> int {
    if (env[4] == 0 || env[4] == 1) && env.len() > 5 && starts_name(env[5]) {
        5
    } else {
        4
    }
}

/// The value of the first variable with the given key.
pub open spec fn lookup(vars: Seq<(Seq<char>, Seq<char>)>, key: Seq<char>) -> Option<Seq<char>>
    decreases vars.len(),
{
    if vars.len() == 0 {
        None
    } else if vars[0].0 == key {
        Some(vars[0].1)
    } else {
        lookup(vars.skip(1), key)
    }
}

/// The variables in the entries. An empty entry, an entry without `=` or one without an end
/// closes the list.
pub open spec fn vars_in(data: Seq<u8>) -> Result<Seq<(Seq<char>, Seq<char>)>, EnvError>
    decreases data.len(),
{
    match first_index(data, 0u8) {
        None => Ok(Seq::empty()),
        Some(nul) => if nul <= 0 || nul >= data.len() {
            Ok(Seq::empty())
        } else {
            let entry = data.take(nul);
            match first_index(entry, 61u8) {
                None => Ok(Seq::empty()),
                Some(eq) => if !valid_utf8(entry.take(eq)) {
                    Err(EnvError::KeyNotUtf8)
                } else if !valid_utf8(entry.skip(eq + 1)) {
                    Err(EnvError::ValueNotUtf8)
                } else {
                    match vars_in(data.skip(nul + 1)) {
                        Err(e) => Err(e),
                        Ok(rest) => Ok(
                            seq![(decode_utf8(entry.take(eq)), decode_utf8(entry.skip(eq + 1)))]
                                + rest,
                        ),
                    }
                },
            }
        },
    }
}

/// What an image says, given the checksum of its bytes from the fifth on.
pub open spec fn env_with_crc(env: Seq<u8>, computed: u32) -> Result<
    Seq<(Seq<char>, Seq<char>)>,
    EnvError,
> {
    if env.len() < 5 {
        Err(EnvError::TooSmall { len: env.len() as usize })
    } else if le32(env, 0) != computed && be32(env, 0) != computed {
        Err(
            EnvError::CrcMismatch {
                stored_le: le32(env, 0) as u32,
                stored_be: be32(env, 0) as u32,
                computed,
                len: env.len() as usize,
            },
        )
    } else {
        vars_in(env.skip(entries_start(env)))
    }
}

impl UbootEnv {
    /// The value of the first variable with the given key.
    pub fn get(&self, key: &str) -> (r: Option<&str>)
        ensures
            match r {
                Some(value) => lookup(self@, key@) == Some(value@),
                None => lookup(self@, key@) is None,
            },
    {
        let mut i: usize = 0;
        assert(self@.skip(0) =~= self@);
        while i < self.vars.len()
            invariant
                i <= self.vars.len(),
                lookup(self@, key@) == lookup(self@.skip(i as int), key@),
            decreases self.vars.len() - i,
        {
            assert(self@.skip(i as int)[0] == (self.vars@[i as int].0@, self.vars@[i as int].1@));
            assert(self@.skip(i as int).skip(1) =~= self@.skip(i + 1));
            if same_text(&self.vars[i].0, key) {
                return Some(&self.vars[i].1);
            }
            i = i + 1;
        }
        None
    }
}

/// Parse an image whose checksum over the bytes from the fifth on is `computed`.
pub fn parse_with_crc(env: &[u8], computed: u32) -> (r: Result<UbootEnv, EnvError>)
    ensures
        match r {
            Ok(e) => env_with_crc(env@, computed) == Ok::<Seq<(Seq<char>, Seq<char>)>, EnvError>(e@),
            Err(e) => env_with_crc(env@, computed) == Err::<Seq<(Seq<char>, Seq<char>)>, EnvError>(
                e,
            ),
        },
{
    let len: usize = env.len();
    if len < 5 {
        return Err(EnvError::TooSmall { len });
    }
    // Mismatch is fatal: if the bytes don't checksum we can't trust the
    // mtdparts string we're about to act on.
    let stored_le: u32 = read_le32(env, 0);
    let stored_be: u32 = read_be32(env, 0);
    if stored_le != computed && stored_be != computed {
        return Err(EnvError::CrcMismatch { stored_le, stored_be, computed, len });
    }
    // The first byte of a normal entry is part of an env var
    // name (an ASCII letter or '_'), which tells the flags byte apart.
    let flagged: bool = (env[4] == 0 || env[4] == 1) && len > 5 && ((65 <= env[5] && env[5] <= 90)
        || (97 <= env[5] && env[5] <= 122) || env[5] == 95);
    let mut start: usize = if flagged {
        5
    } else {
        4
    };
    let mut vars: Vec<(String, String)> = Vec::new();
    let ghost all = vars_in(env@.skip(start as int));
    assert(vars_view(vars@) =~= Seq::empty());
    proof {
        if let Ok(rest) = all {
            assert(Seq::<(Seq<char>, Seq<char>)>::empty() + rest =~= rest);
        }
    }
    while start < len
        invariant_except_break
            start <= len == env@.len(),
            env_with_crc(env@, computed) == all,
            match vars_in(env@.skip(start as int)) {
                Ok(rest) => all == Ok::<Seq<(Seq<char>, Seq<char>)>, EnvError>(
                    vars_view(vars@) + rest,
                ),
                Err(e) => all == Err::<Seq<(Seq<char>, Seq<char>)>, EnvError>(e),
            },
        ensures
            env_with_crc(env@, computed) == Ok::<Seq<(Seq<char>, Seq<char>)>, EnvError>(
                vars_view(vars@),
            ),
        decreases len - start,
    {
        let ghost data = env@.skip(start as int);
        assert(vars_view(vars@) + Seq::<(Seq<char>, Seq<char>)>::empty() =~= vars_view(vars@));
        let size: usize = match find_byte(env, start, 0) {
            Some(i) => i,
            None => {
                // No more NULs: padding up to the end.
                break;
            },
        };
        if size == 0 {
            // An empty entry ends the meaningful data.
            break;
        }
        let nul: usize = start + size;
        let entry: &[u8] = slice_subrange(env, start, nul);
        assert(entry@ =~= data.take(size as int));
        let eq: usize = match find_byte(entry, 0, 61) {
            Some(i) => i,
            None => {
                // Not a KEY=VALUE pair: garbage or padding.
                assert(entry@.skip(0) =~= entry@);
                break;
            },
        };
        assert(entry@.skip(0) =~= entry@);
        let key_bytes: &[u8] = slice_subrange(entry, 0, eq);
        let value_bytes: &[u8] = slice_subrange(entry, eq + 1, size);
        assert(key_bytes@ =~= entry@.take(eq as int));
        assert(value_bytes@ =~= entry@.skip(eq + 1));
        let key: String = match utf8_text(key_bytes) {
            Some(s) => s,
            None => {
                return Err(EnvError::KeyNotUtf8);
            },
        };
        let value: String = match utf8_text(value_bytes) {
            Some(s) => s,
            None => {
                return Err(EnvError::ValueNotUtf8);
            },
        };
        let ghost before = vars_view(vars@);
        let ghost var = (key@, value@);
        vars.push((key, value));
        proof {
            assert(vars_view(vars@) =~= before.push(var));
            assert(data.skip(size + 1) =~= env@.skip(nul + 1));
            if let Ok(rest) = vars_in(env@.skip(nul + 1)) {
                assert(before + (seq![var] + rest) =~= before.push(var) + rest);
            }
        }
        start = nul + 1;
        proof {
            if start == len {
                assert(env@.skip(start as int) =~= Seq::empty());
                assert(vars_view(vars@) + Seq::<(Seq<char>, Seq<char>)>::empty() =~= vars_view(
                    vars@,
                ));
            }
        }
    }
    Ok(UbootEnv { vars })
}

/// Parse an environment image.
pub fn parse(env: &[u8]) -> (r: Result<UbootEnv, EnvError>)
    ensures
        match r {
            Ok(e) => env_with_crc(env@, crc32_of(env@.skip(4))) == Ok::<
                Seq<(Seq<char>, Seq<char>)>,
                EnvError,
            >(e@),
            Err(e) => env_with_crc(env@, crc32_of(env@.skip(4))) == Err::<
                Seq<(Seq<char>, Seq<char>)>,
                EnvError,
            >(e),
        },
{
    if env.len() < 5 {
        return Err(EnvError::TooSmall { len: env.len() });
    }
    let body: &[u8] = slice_subrange(env, 4, env.len());
    assert(body@ =~= env@.skip(4));
    parse_with_crc(env, crc32(body))
}

/// The bytes of one entry: key, `=`, value and the closing NUL.
pub open spec fn entry_bytes(key: Seq<u8>, value: Seq<u8>) -> Seq<u8> {
    key + seq![61u8] + value + seq![0u8]
}

/// The bytes of all entries, one after the other.
pub open spec fn all_entry_bytes(entries: Seq<(Seq<u8>, Seq<u8>)>) -> Seq<u8>
    decreases entries.len(),
{
    if entries.len() == 0 {
        Seq::empty()
    } else {
        entry_bytes(entries[0].0, entries[0].1) + all_entry_bytes(entries.skip(1))
    }
}

/// Whether an entry can be told apart from its neighbours: no NUL in it, no `=` in its key,
/// and UTF-8 on both sides.
pub open spec fn entry_ok(entry: (Seq<u8>, Seq<u8>)) -> bool {
    &&& !entry.0.contains(0u8)
    &&& !entry.0.contains(61u8)
    &&& !entry.1.contains(0u8)
    &&& valid_utf8(entry.0)
    &&& valid_utf8(entry.1)
}

/// The image that holds the given entries: checksum, flags byte if there is one, the entries,
/// the empty entry that closes them, and padding.
pub open spec fn env_image(
    crc: Seq<u8>,
    flags: Option<u8>,
    entries: Seq<(Seq<u8>, Seq<u8>)>,
    padding: Seq<u8>,
) -> Seq<u8> {
    crc + (match flags {
        Some(f) => seq![f],
        None => Seq::empty(),
    }) + (all_entry_bytes(entries) + seq![0u8] + padding)
}

/// The variables that the entries stand for.
pub open spec fn entry_vars(entries: Seq<(Seq<u8>, Seq<u8>)>) -> Seq<(Seq<char>, Seq<char>)> {
    entries.map_values(|e: (Seq<u8>, Seq<u8>)| (decode_utf8(e.0), decode_utf8(e.1)))
}

/// Entries followed by an empty entry read back as their variables, whatever comes behind.
proof fn lemma_vars_in_entries(entries: Seq<(Seq<u8>, Seq<u8>)>, padding: Seq<u8>)
    requires
        forall|i: int| 0 <= i < entries.len() ==> entry_ok(#[trigger] entries[i]),
    ensures
        vars_in(all_entry_bytes(entries) + seq![0u8] + padding) == Ok::<
            Seq<(Seq<char>, Seq<char>)>,
            EnvError,
        >(entry_vars(entries)),
    decreases entries.len(),
{
    let data = all_entry_bytes(entries) + seq![0u8] + padding;
    if entries.len() == 0 {
        assert(data[0] == 0u8);
        lemma_first_index_is(data, 0u8, 0);
        assert(entry_vars(entries) =~= Seq::empty());
    } else {
        let key = entries[0].0;
        let value = entries[0].1;
        let rest = entries.skip(1);
        assert(entry_ok(entries[0]));
        let entry = key + seq![61u8] + value;
        let nul = entry.len() as int;
        assert(data =~= entry + seq![0u8] + (all_entry_bytes(rest) + seq![0u8] + padding));
        assert forall|j: int| 0 <= j < nul implies #[trigger] data[j] != 0u8 by {
            if j < key.len() {
                assert(data[j] == key[j]);
                assert(key.contains(key[j]));
            } else if j > key.len() {
                assert(data[j] == value[j - key.len() - 1]);
                assert(value.contains(value[j - key.len() - 1]));
            }
        }
        lemma_first_index_is(data, 0u8, nul);
        assert(data.take(nul) =~= entry);
        let eq = key.len() as int;
        assert forall|j: int| 0 <= j < eq implies #[trigger] entry[j] != 61u8 by {
            assert(entry[j] == key[j]);
            assert(key.contains(key[j]));
        }
        lemma_first_index_is(entry, 61u8, eq);
        assert(entry.take(eq) =~= key);
        assert(entry.skip(eq + 1) =~= value);
        assert(data.skip(nul + 1) =~= all_entry_bytes(rest) + seq![0u8] + padding);
        assert forall|i: int| 0 <= i < rest.len() implies entry_ok(#[trigger] rest[i]) by {
            assert(rest[i] == entries[i + 1]);
        }
        lemma_vars_in_entries(rest, padding);
        assert(seq![(decode_utf8(key), decode_utf8(value))] + entry_vars(rest) =~= entry_vars(
            entries,
        ));
    }
}

/// An image reads back as what was written into it: with a checksum that matches in either
/// byte order, with or without the flags byte, and with any padding, the variables come out
/// in the order of the entries. Left out are images in which the flags byte cannot be told
/// apart from the first entry.
pub proof fn law_env_reads_back(
    crc: Seq<u8>,
    flags: Option<u8>,
    entries: Seq<(Seq<u8>, Seq<u8>)>,
    padding: Seq<u8>,
    computed: u32,
)
    requires
        crc.len() == 4,
        le32(crc, 0) == computed || be32(crc, 0) == computed,
        flags == Some(0u8) || flags == Some(1u8) || flags is None,
        forall|i: int| 0 <= i < entries.len() ==> entry_ok(#[trigger] entries[i]),
        entries.len() == 0 && flags is Some || entries_start(
            env_image(crc, flags, entries, padding),
        ) == (if flags is Some {
            5int
        } else {
            4int
        }),
    ensures
        env_with_crc(env_image(crc, flags, entries, padding), computed) == Ok::<
            Seq<(Seq<char>, Seq<char>)>,
            EnvError,
        >(entry_vars(entries)),
{
    let image = env_image(crc, flags, entries, padding);
    let body = all_entry_bytes(entries) + seq![0u8] + padding;
    lemma_vars_in_entries(entries, padding);
    assert(image[0] == crc[0] && image[1] == crc[1] && image[2] == crc[2] && image[3] == crc[3]);
    if flags is Some {
        assert(image.skip(5) =~= body);
        if entries.len() == 0 {
            assert(body[0] == 0u8);
            assert(image[4] == flags->0);
            assert(image[5] == 0u8);
            let data = image.skip(4);
            assert(data[0] == flags->0);
            assert(data[1] == 0u8);
            assert(entry_vars(entries) =~= Seq::empty());
            if flags->0 == 0u8 {
                lemma_first_index_is(data, 0u8, 0);
            } else {
                lemma_first_index_is(data, 0u8, 1);
                let entry = data.take(1);
                crate::text::lemma_first_index_none(entry, 61u8);
            }
        }
    } else {
        assert(image.skip(4) =~= body);
    }
}

} // verus!
