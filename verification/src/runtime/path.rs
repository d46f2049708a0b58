//! Unix paths as byte strings, with the operations that the runtime needs of
//! them: appending a relative part, taking the parent, and turning a path into
//! text.

use vstd::prelude::*;
use vstd::string::*;
use vstd::utf8::*;

use crate::runtime::text::{lemma_encode_concat, lemma_encode_first, lemma_encode_last};

verus! {

/// The byte that separates path components.
pub const SLASH: u8 = 47;

/// The byte of a full stop.
pub const DOT: u8 = 46;

/// `part` appended to `base`: an absolute part replaces the base, any other is
/// separated from it by one slash unless the base is empty or ends in one.
pub open spec fn joined(base: Seq<u8>, part: Seq<u8>) -> Seq<u8> {
    if part.len() > 0 && part[0] == SLASH {
        part
    } else if base.len() > 0 && base.last() != SLASH {
        base.push(SLASH) + part
    } else {
        base + part
    }
}

/// The length of what stands before a path's components: the root slash, or
/// a leading `.` component.
pub open spec fn fixed_len(p: Seq<u8>) -> nat {
    if p.len() > 0 && p[0] == SLASH {
        1
    } else if p.len() > 0 && p[0] == DOT && (p.len() == 1 || p[1] == SLASH) {
        1
    } else {
        0
    }
}

/// The index at which the last component of a path begins, when components
/// are counted from index `from` on.
pub open spec fn component_start(p: Seq<u8>, from: nat) -> nat
    decreases p.len(),
{
    if p.len() <= from {
        from
    } else if p.last() == SLASH {
        p.len()
    } else {
        component_start(p.drop_last(), from)
    }
}

/// The length that remains of a path when its last component, and the slash
/// before it, are taken off.
pub open spec fn cut_len(p: Seq<u8>) -> int {
    let from = fixed_len(p);
    let start = component_start(p, from);
    if start > from {
        start - 1
    } else {
        from as int
    }
}

/// Whether the last component of a path says nothing: it is empty or `.`.
pub open spec fn last_is_void(p: Seq<u8>) -> bool {
    let c = p.skip(component_start(p, fixed_len(p)) as int);
    c.len() == 0 || (c.len() == 1 && c[0] == DOT)
}

/// A path without the void components at its end.
pub open spec fn trimmed(p: Seq<u8>) -> Seq<u8>
    decreases p.len(),
{
    if p.len() > fixed_len(p) && last_is_void(p) && cut_len(p) < p.len() {
        trimmed(p.take(cut_len(p)))
    } else {
        p
    }
}

/// The parent of a path: the path without its last component, where it has
/// one.
pub open spec fn parent_of(p: Seq<u8>) -> Option<Seq<u8>> {
    let q = trimmed(p);
    if q.len() > fixed_len(q) {
        Some(trimmed(q.take(cut_len(q))))
    } else if q.len() == 1 && q[0] == DOT {
        Some(Seq::empty())
    } else {
        None
    }
}

/// The text that [`String::from_utf8_lossy`] makes of bytes that are not
/// well-formed UTF-8.
pub uninterp spec fn lossy_text(bytes: Seq<u8>) -> Seq<char>;

/// Calls [`String::from_utf8_lossy`]. Well-formed UTF-8 comes back as the text
/// that it encodes; what is put in place of ill-formed bytes is left to the
/// name `lossy_text`.
#[verifier::external_body]
fn from_utf8_lossy(bytes: &[u8]) -> (text: String)
    ensures
        valid_utf8(bytes@) ==> text@ == decode_utf8(bytes@),
        !valid_utf8(bytes@) ==> text@ == lossy_text(bytes@),
{
    String::from_utf8_lossy(bytes).into_owned()
}

/// The text of a path: what its bytes encode, or the nearest text where they
/// encode none.
pub open spec fn path_text(bytes: Seq<u8>) -> Seq<char> {
    if valid_utf8(bytes) {
        decode_utf8(bytes)
    } else {
        lossy_text(bytes)
    }
}

/// A Unix path: any byte string, text or not.
#[derive(Debug)]
pub struct UnixPath {
    pub bytes: Vec<u8>,
}

impl View for UnixPath {
    type V = Seq<u8>;

    open spec fn view(&self) -> Seq<u8> {
        self.bytes@
    }
}

/// The index at which the last component of the first `len` bytes begins.
fn find_component(bytes: &Vec<u8>, len: usize, from: usize) -> (start: usize)
    requires
        from <= len <= bytes@.len(),
    ensures
        start == component_start(bytes@.take(len as int), from as nat),
        from <= start <= len,
{
    let ghost p = bytes@.take(len as int);
    let mut i = len;
    assert(p.take(len as int) =~= p);
    while i > from
        invariant
            from <= i <= len <= bytes@.len(),
            p == bytes@.take(len as int),
            component_start(p, from as nat) == component_start(p.take(i as int), from as nat),
        decreases i,
    {
        assert(p.take(i as int).last() == bytes@[i - 1]);
        if bytes[i - 1] == SLASH {
            return i;
        }
        assert(p.take(i as int).drop_last() =~= p.take(i - 1));
        i = i - 1;
    }
    from
}

fn find_fixed(bytes: &Vec<u8>, len: usize) -> (n: usize)
    requires
        len <= bytes@.len(),
    ensures
        n == fixed_len(bytes@.take(len as int)),
        n <= len,
{
    if len > 0 && bytes[0] == SLASH {
        1
    } else if len > 0 && bytes[0] == DOT && (len == 1 || bytes[1] == SLASH) {
        1
    } else {
        0
    }
}

fn find_cut(bytes: &Vec<u8>, len: usize) -> (n: usize)
    requires
        len <= bytes@.len(),
    ensures
        n == cut_len(bytes@.take(len as int)),
        n <= len,
{
    let from = find_fixed(bytes, len);
    let start = find_component(bytes, len, from);
    if start > from {
        start - 1
    } else {
        from
    }
}

fn ends_void(bytes: &Vec<u8>, len: usize) -> (r: bool)
    requires
        len <= bytes@.len(),
    ensures
        r == last_is_void(bytes@.take(len as int)),
{
    let from = find_fixed(bytes, len);
    let start = find_component(bytes, len, from);
    start == len || (len - start == 1 && bytes[start] == DOT)
}

fn find_trimmed(bytes: &Vec<u8>, len: usize) -> (n: usize)
    requires
        len <= bytes@.len(),
    ensures
        n <= len,
        bytes@.take(n as int) == trimmed(bytes@.take(len as int)),
{
    let mut n = len;
    while n > find_fixed(bytes, n) && ends_void(bytes, n) && find_cut(bytes, n) < n
        invariant
            n <= len <= bytes@.len(),
            trimmed(bytes@.take(n as int)) == trimmed(bytes@.take(len as int)),
        decreases n,
    {
        let cut = find_cut(bytes, n);
        assert(bytes@.take(n as int).take(cut as int) =~= bytes@.take(cut as int));
        n = cut;
    }
    n
}

/// The first `len` bytes.
pub(crate) fn prefix(bytes: &Vec<u8>, len: usize) -> (out: Vec<u8>)
    requires
        len <= bytes@.len(),
    ensures
        out@ == bytes@.take(len as int),
{
    let mut out = Vec::new();
    let mut i: usize = 0;
    while i < len
        invariant
            i <= len <= bytes@.len(),
            out@ == bytes@.take(i as int),
        decreases len - i,
    {
        out.push(bytes[i]);
        i = i + 1;
    }
    out
}

impl Clone for UnixPath {
    fn clone(&self) -> (p: Self)
        ensures
            p@ == self@,
    {
        let bytes = prefix(&self.bytes, self.bytes.len());
        assert(bytes@ =~= self@);
        UnixPath { bytes }
    }
}

impl UnixPath {
    /// The path that a text spells.
    pub fn from_text(text: &str) -> (p: UnixPath)
        ensures
            p@ == encode_utf8(text@),
    {
        UnixPath { bytes: text.as_bytes_vec() }
    }

    /// Appends a part to the path, as [`joined`] says.
    pub fn join(&self, part: &str) -> (p: UnixPath)
        ensures
            p@ == joined(self@, encode_utf8(part@)),
    {
        let mut tail = part.as_bytes_vec();
        if tail.len() > 0 && tail[0] == SLASH {
            return UnixPath { bytes: tail };
        }
        let mut bytes = self.clone().bytes;
        if bytes.len() > 0 && bytes[bytes.len() - 1] != SLASH {
            bytes.push(SLASH);
        }
        bytes.append(&mut tail);
        UnixPath { bytes }
    }

    /// The path without its last component, as [`parent_of`] says.
    pub fn parent(&self) -> (r: Option<UnixPath>)
        ensures
            match r {
                Some(p) => parent_of(self@) == Some(p@),
                None => parent_of(self@) is None,
            },
    {
        assert(self@.take(self@.len() as int) =~= self@);
        let q = find_trimmed(&self.bytes, self.bytes.len());
        if q > find_fixed(&self.bytes, q) {
            let cut = find_cut(&self.bytes, q);
            assert(self@.take(q as int).take(cut as int) =~= self@.take(cut as int));
            let n = find_trimmed(&self.bytes, cut);
            Some(UnixPath { bytes: prefix(&self.bytes, n) })
        } else if q == 1 && self.bytes[0] == DOT {
            Some(UnixPath { bytes: Vec::new() })
        } else {
            None
        }
    }

    /// The path as text, where ill-formed bytes are replaced.
    pub fn to_string_lossy(&self) -> (text: String)
        ensures
            text@ == path_text(self@),
    {
        from_utf8_lossy(self.bytes.as_slice())
    }
}

/// A relative text appended to one that does not end in a slash is separated
/// from it by one.
pub proof fn law_join_puts_one_slash_between(base: Seq<char>, part: Seq<char>)
    requires
        base.len() > 0,
        base.last() != '/',
        part.len() > 0,
        part[0] != '/',
    ensures
        joined(encode_utf8(base), encode_utf8(part)) == encode_utf8(base + seq!['/'] + part),
{
    lemma_encode_last(base);
    lemma_encode_first(part);
    lemma_slash_bytes();
    lemma_encode_concat(base, seq!['/']);
    lemma_encode_concat(base + seq!['/'], part);
    assert(encode_utf8(base).push(SLASH) =~= encode_utf8(base) + seq![SLASH]);
}

/// An absolute text takes the place of what it is appended to.
pub proof fn law_join_of_absolute_replaces(base: Seq<u8>, part: Seq<char>)
    requires
        part.len() > 0,
        part[0] == '/',
    ensures
        joined(base, encode_utf8(part)) == encode_utf8(part),
{
    lemma_encode_first(part);
}

/// The bytes of a slash.
pub(crate) proof fn lemma_slash_bytes()
    ensures
        encode_utf8(seq!['/']) == seq![SLASH],
{
    lemma_encode_last(seq!['/']);
    lemma_encode_first(seq!['/']);
    reveal_with_fuel(encode_utf8, 2);
    assert(seq!['/'].drop_first().len() == 0);
    assert(encode_utf8(seq!['/']) =~= seq![SLASH]);
}

proof fn lemma_component_of_append(base: Seq<u8>, name: Seq<u8>, from: nat)
    requires
        base.len() >= from,
        base.len() > from ==> base.last() == SLASH,
        forall|i: int| 0 <= i < name.len() ==> name[i] != SLASH,
    ensures
        component_start(base + name, from) == base.len(),
    decreases name.len(),
{
    if name.len() == 0 {
        assert(base + name =~= base);
    } else {
        assert((base + name).drop_last() =~= base + name.drop_last());
        lemma_component_of_append(base, name.drop_last(), from);
    }
}

/// The parent of an absolute path to which a name was appended is that path,
/// but for void components at its end. A full stop alone is no name.
pub proof fn law_parent_undoes_join(base: Seq<u8>, name: Seq<u8>)
    requires
        base.len() > 0,
        base[0] == SLASH,
        name.len() > 0,
        !(name.len() == 1 && name[0] == DOT),
        forall|i: int| 0 <= i < name.len() ==> name[i] != SLASH,
    ensures
        parent_of(joined(base, name)) == Some(trimmed(base)),
{
    let full = joined(base, name);
    let head = if base.last() != SLASH {
        base.push(SLASH)
    } else {
        base
    };
    assert(full =~= head + name);
    lemma_component_of_append(head, name, 1);
    assert(component_start(full, 1) == head.len());
    assert(full.skip(head.len() as int) =~= name);
    assert(trimmed(full) == full);
    if base.last() != SLASH {
        assert(full.take(cut_len(full)) =~= base);
    } else if base.len() == 1 {
        assert(full.take(cut_len(full)) =~= base);
    } else {
        assert(component_start(base, 1) == base.len());
        assert(base.skip(base.len() as int).len() == 0);
        assert(full.take(cut_len(full)) =~= base.take(cut_len(base)));
    }
}

/// A part that begins with a slash takes the place of the base; any other
/// follows the base, after a slash where the base has anything but a slash at
/// its end.
pub proof fn law_join_is_base_and_part(base: Seq<u8>, part: Seq<u8>)
    ensures
        part.len() > 0 && part[0] == 47u8 ==> joined(base, part) == part,
        !(part.len() > 0 && part[0] == 47u8) && base.len() > 0 && base.last() != 47u8 ==> joined(
            base,
            part,
        ) == base + seq![47u8] + part,
        !(part.len() > 0 && part[0] == 47u8) && (base.len() == 0 || base.last() == 47u8)
            ==> joined(base, part) == base + part,
{
    assert(base.push(SLASH) + part =~= base + seq![47u8] + part);
}

/// The text of a path is what its bytes encode, where they encode anything.
pub proof fn law_path_of_text_is_that_text(text: Seq<char>, bytes: Seq<u8>)
    ensures
        path_text(encode_utf8(text)) == text,
        !valid_utf8(bytes) ==> path_text(bytes) == lossy_text(bytes),
        valid_utf8(bytes) ==> encode_utf8(path_text(bytes)) == bytes,
{
    encode_utf8_valid_utf8(text);
    encode_utf8_decode_utf8(text);
    if valid_utf8(bytes) {
        decode_utf8_encode_utf8(bytes);
    }
}

/// A path is its bytes.
pub proof fn law_path_is_its_bytes(p: UnixPath)
    ensures
        p@ == p.bytes@,
{
}

/// The index behind the last slash.
pub open spec fn behind_slash(p: Seq<u8>) -> int
    decreases p.len(),
{
    if p.len() == 0 || p.last() == 47u8 {
        p.len() as int
    } else {
        behind_slash(p.drop_last())
    }
}

/// The names that a path goes through: what stands between its slashes, but
/// for nothing and full stops alone.
pub open spec fn names(p: Seq<u8>) -> Seq<Seq<u8>>
    decreases p.len(),
{
    let at = behind_slash(p);
    let before = if 0 < at <= p.len() {
        names(p.take(at - 1))
    } else {
        Seq::empty()
    };
    let last = p.skip(at);
    if last.len() == 0 || last == seq![46u8] {
        before
    } else {
        before.push(last)
    }
}

proof fn lemma_behind_slash(p: Seq<u8>)
    ensures
        0 <= behind_slash(p) <= p.len(),
        behind_slash(p) > 0 ==> p[behind_slash(p) - 1] == 47u8,
        forall|i: int| behind_slash(p) <= i < p.len() ==> p[i] != 47u8,
    decreases p.len(),
{
    if p.len() > 0 && p.last() != 47u8 {
        let init = p.drop_last();
        lemma_behind_slash(init);
        assert forall|i: int| behind_slash(p) <= i < p.len() implies p[i] != 47u8 by {
            if i < init.len() {
                assert(init[i] == p[i]);
            }
        }
    }
}

proof fn lemma_component_is_behind_slash(p: Seq<u8>, from: nat)
    requires
        from <= p.len(),
        from <= behind_slash(p),
    ensures
        component_start(p, from) == behind_slash(p),
    decreases p.len(),
{
    lemma_behind_slash(p);
    if p.len() > from && p.last() != SLASH {
        lemma_component_is_behind_slash(p.drop_last(), from);
    }
}

proof fn lemma_names_of_fixed(p: Seq<u8>)
    requires
        p.len() <= fixed_len(p),
    ensures
        names(p).len() == 0,
        p.len() <= 1,
{
    lemma_behind_slash(p);
    reveal_with_fuel(names, 2);
    reveal_with_fuel(behind_slash, 3);
    if p.len() == 1 && p[0] == 46u8 {
        assert(p.drop_last().len() == 0);
        assert(p.skip(0) =~= seq![46u8]);
    }
}

proof fn lemma_cut_drops_one_name(p: Seq<u8>)
    requires
        p.len() > fixed_len(p),
    ensures
        0 <= cut_len(p) < p.len(),
        last_is_void(p) ==> names(p) == names(p.take(cut_len(p))),
        !last_is_void(p) ==> names(p).len() > 0 && names(p.take(cut_len(p))) == names(
            p,
        ).drop_last() && p.last() != 47u8 && (p.len() > 1 ==> !(p.last() == 46u8 && p[p.len()
            - 2] == 47u8)),
{
    let from = fixed_len(p);
    let at = behind_slash(p);
    lemma_behind_slash(p);
    if from == 1 && at == 0 {
        assert(p[0] == 46u8 && p[1] == 47u8);
    }
    assert(from <= at);
    lemma_component_is_behind_slash(p, from);
    let last = p.skip(at);
    if last.len() == 1 {
        assert(last[0] == 46u8 <==> last =~= seq![46u8]);
    }
    if at > from {
        assert(cut_len(p) == at - 1);
    } else {
        assert(cut_len(p) == from);
        if from == 1 {
            assert(p[0] == 47u8);
            lemma_names_of_fixed(p.take(1));
            assert(p.take(0).len() == 0);
            lemma_names_of_fixed(p.take(0));
        } else {
            lemma_names_of_fixed(p.take(0));
        }
    }
    if !last_is_void(p) {
        assert(p.last() == last.last());
        assert(names(p).drop_last() =~= names(p.take(cut_len(p))));
        if p.last() == 46u8 && p.len() > 1 && p[p.len() - 2] == 47u8 {
            assert(last.len() == 1);
        }
    }
}

proof fn lemma_trimmed_keeps_names(p: Seq<u8>)
    ensures
        names(trimmed(p)) == names(p),
        trimmed(p).len() <= p.len(),
        trimmed(p) == p.take(trimmed(p).len() as int),
        trimmed(p).len() > fixed_len(trimmed(p)) ==> !last_is_void(trimmed(p)),
    decreases p.len(),
{
    if p.len() > fixed_len(p) {
        lemma_cut_drops_one_name(p);
        if last_is_void(p) {
            let q = p.take(cut_len(p));
            lemma_trimmed_keeps_names(q);
            assert(q.take(trimmed(q).len() as int) =~= p.take(trimmed(q).len() as int));
        } else {
            assert(p.take(p.len() as int) =~= p);
        }
    } else {
        assert(p.take(p.len() as int) =~= p);
    }
}

/// The parent of a path that goes through names is the path up to before the
/// last of them, with nothing void at its end. A path that goes through none
/// has no parent, but for one that begins with a full stop: that one's is
/// empty.
pub proof fn law_parent_drops_the_last_name(p: Seq<u8>)
    ensures
        names(p).len() > 0 ==> (parent_of(p) matches Some(q) && q.len() < p.len() && q == p.take(
            q.len() as int,
        ) && names(q) == names(p).drop_last() && (q.len() > 1 ==> q.last() != 47u8 && !(q.last()
            == 46u8 && q[q.len() - 2] == 47u8))),
        names(p).len() == 0 && p.len() > 0 && p[0] == 46u8 ==> parent_of(p) == Some(
            Seq::<u8>::empty(),
        ),
        names(p).len() == 0 && !(p.len() > 0 && p[0] == 46u8) ==> parent_of(p) is None,
{
    let q = trimmed(p);
    lemma_trimmed_keeps_names(p);
    if q.len() > fixed_len(q) {
        lemma_cut_drops_one_name(q);
        let cut = q.take(cut_len(q));
        let r = trimmed(cut);
        lemma_trimmed_keeps_names(cut);
        assert(cut.take(r.len() as int) =~= p.take(r.len() as int));
        if r.len() > fixed_len(r) {
            lemma_cut_drops_one_name(r);
        }
    } else {
        lemma_names_of_fixed(q);
        if q.len() == 0 && p.len() > 0 && p[0] == 46u8 {
            lemma_leading_stop_stays(p);
        }
    }
}

proof fn lemma_leading_stop_stays(p: Seq<u8>)
    requires
        p.len() > 0,
        p[0] == 46u8,
        names(p).len() == 0,
    ensures
        trimmed(p).len() > 0,
    decreases p.len(),
{
    lemma_behind_slash(p);
    if p.len() > fixed_len(p) {
        lemma_cut_drops_one_name(p);
        if fixed_len(p) == 0 {
            let at = behind_slash(p);
            lemma_component_is_behind_slash(p, 0);
            if at > 0 {
                assert(cut_len(p) == at - 1);
                assert(p[at - 1] == 47u8);
                assert(at > 2);
                lemma_leading_stop_stays(p.take(at - 1));
            } else {
                assert(p.skip(0) =~= p);
            }
        } else {
            let at = behind_slash(p);
            assert(at >= 2);
            lemma_component_is_behind_slash(p, 1);
            assert(cut_len(p) == at - 1);
            lemma_leading_stop_stays(p.take(at - 1));
        }
    }
}

/// An absolute path with a name at its end is not shortened by trimming.
pub(crate) proof fn lemma_named_is_trimmed(p: Seq<u8>)
    requires
        p.len() > 1,
        p[0] == 47u8,
        p.last() != 47u8,
        !(p.last() == 46u8 && p[p.len() - 2] == 47u8),
    ensures
        trimmed(p) == p,
{
    let at = behind_slash(p);
    lemma_behind_slash(p);
    lemma_component_is_behind_slash(p, 1);
    let last = p.skip(at);
    assert(last.len() > 0);
    assert(last.last() == p.last());
    if last.len() == 1 {
        assert(p[at - 1] == 47u8);
    }
}

} // verus!
