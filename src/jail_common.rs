//! Identifiers, cgroup paths and protocol messages shared by the controller
//! and the job server of an isolation domain.

use rand::seq::SliceRandom;
use vstd::prelude::*;

verus! {

/// A process identifier, as the kernel hands it out.
pub type Pid = i32;

/// A raw file descriptor.
pub type Handle = i32;

/// Path of the cgroup directory of subsystem `subsys` for the group `id`.
pub open spec fn subsystem_path(subsys: Seq<char>, id: Seq<char>) -> Seq<char> {
    "/sys/fs/cgroup/"@ + subsys + "/jjs/g-"@ + id
}

/// Returns the directory of the cgroup `cgroup_id` under the hierarchy of
/// the subsystem `subsys_name` (`pids`, `memory`, ...).
pub fn get_path_for_subsystem(subsys_name: &str, cgroup_id: &str) -> (r: String)
    ensures
        r@ == subsystem_path(subsys_name@, cgroup_id@),
{
    let mut path = String::from_str("/sys/fs/cgroup/");
    path.append(subsys_name);
    path.append("/jjs/g-");
    path.append(cgroup_id);
    path
}

/// Number of characters in a jail identifier.
pub const ID_SIZE: usize = 8;

/// The characters a jail identifier is drawn from.
pub open spec fn id_chars() -> Seq<u8> {
    seq![
        // q w e r t y u i o p a s d f g h j k l z x c v b n m 1 2 3 4 5 6 7 8 9 0
        113, 119, 101, 114, 116, 121, 117, 105, 111, 112, 97, 115,
        100, 102, 103, 104, 106, 107, 108, 122, 120, 99, 118, 98,
        110, 109, 49, 50, 51, 52, 53, 54, 55, 56, 57, 48,
    ]
}

/// A character that may stand in a jail identifier.
pub open spec fn is_id_char(c: char) -> bool {
    ('a' <= c && c <= 'z') || ('0' <= c && c <= '9')
}

/// A well-formed jail identifier.
pub open spec fn is_jail_id(s: Seq<char>) -> bool {
    &&& s.len() == ID_SIZE
    &&& forall|i: int| 0 <= i < s.len() ==> is_id_char(#[trigger] s[i])
}

fn id_alphabet() -> (r: Vec<u8>)
    ensures
        r@ == id_chars(),
{
    let r: Vec<u8> = vec![
        // q w e r t y u i o p a s d f g h j k l z x c v b n m 1 2 3 4 5 6 7 8 9 0
        113, 119, 101, 114, 116, 121, 117, 105, 111, 112, 97, 115,
        100, 102, 103, 104, 106, 107, 108, 122, 120, 99, 118, 98,
        110, 109, 49, 50, 51, 52, 53, 54, 55, 56, 57, 48,
    ];
    assert(r@ =~= id_chars());
    r
}

/// Relies on `rand::seq::SliceRandom::choose` over `rand::thread_rng`: on a
/// non-empty slice it returns one of the slice's elements.
#[verifier::external_body]
fn choose_random(items: &[u8]) -> (r: u8)
    requires
        items@.len() > 0,
    ensures
        items@.contains(r),
{
    *items.choose(&mut rand::thread_rng()).unwrap()
}

/// Relies on `String::from_utf8_lossy`: ASCII bytes are valid UTF-8 and
/// decode one for one into the characters of the same code.
#[verifier::external_body]
fn ascii_to_string(bytes: &[u8]) -> (r: String)
    requires
        forall|i: int| 0 <= i < bytes@.len() ==> #[trigger] bytes@[i] < 128,
    ensures
        r@.len() == bytes@.len(),
        forall|i: int| 0 <= i < bytes@.len() ==> #[trigger] r@[i] == bytes@[i] as char,
{
    String::from_utf8_lossy(bytes).into_owned()
}

proof fn lemma_id_chars_are_id_chars(b: u8)
    requires
        id_chars().contains(b),
    ensures
        b < 128,
        is_id_char(b as char),
{
    let i = choose|i: int| 0 <= i < id_chars().len() && id_chars()[i] == b;
    assert(0 <= i < 36);
}

/// Draws a fresh random jail identifier: `ID_SIZE` characters, each taken
/// from the lower-case letters and the digits.
pub fn gen_jail_id() -> (r: String)
    ensures
        is_jail_id(r@),
{
    let alphabet = id_alphabet();
    let mut out: Vec<u8> = Vec::new();
    let mut i: usize = 0;
    while i < ID_SIZE
        invariant
            i <= ID_SIZE,
            alphabet@ == id_chars(),
            out@.len() == i,
            forall|k: int| 0 <= k < out@.len() ==> id_chars().contains(#[trigger] out@[k]),
        decreases ID_SIZE - i,
    {
        let ch = choose_random(alphabet.as_slice());
        out.push(ch);
        i = i + 1;
    }
    proof {
        assert forall|k: int| 0 <= k < out@.len() implies #[trigger] out@[k] < 128 by {
            lemma_id_chars_are_id_chars(out@[k]);
        }
    }
    let r = ascii_to_string(out.as_slice());
    proof {
        assert forall|k: int| 0 <= k < r@.len() implies is_id_char(#[trigger] r@[k]) by {
            lemma_id_chars_are_id_chars(out@[k]);
        }
    }
    r
}

} // verus!
