//! What a reference holds, and the text of a reference file.
//!
//! A reference file holds one line. For a peeled reference it is the object
//! id in lowercase hexadecimal; for a symbolic one it is `ref: ` and the name
//! of the reference pointed at. The line ends with a single newline.
use crate::hex;
use vstd::prelude::*;

verus! {

/// The newline that ends a reference file.
pub const NEWLINE: u8 = 0x0a;

/// The length in bytes of an object id: 20 (SHA-1) or 32 (SHA-256).
pub open spec fn is_id_len(n: nat) -> bool {
    n == 20 || n == 32
}

/// The marker `ref: ` that opens a symbolic reference file.
pub open spec fn symbolic_prefix() -> Seq<u8> {
    seq![0x72u8, 0x65u8, 0x66u8, 0x3au8, 0x20u8]
}

/// The id of an object by its content: 20 or 32 bytes.
#[derive(Debug, PartialEq, Eq, Hash)]
pub struct ObjectId {
    bytes: Vec<u8>,
}

impl View for ObjectId {
    type V = Seq<u8>;

    closed spec fn view(&self) -> Seq<u8> {
        self.bytes@
    }
}

impl ObjectId {
    #[verifier::type_invariant]
    spec fn has_id_len(&self) -> bool {
        is_id_len(self.bytes@.len())
    }

    /// Makes an id of `bytes`, or `None` where their number is neither 20 nor 32.
    pub fn from_bytes(bytes: Vec<u8>) -> (id: Option<ObjectId>)
        ensures
            id is Some <==> is_id_len(bytes@.len()),
            id matches Some(i) ==> i@ == bytes@,
    {
        if bytes.len() == 20 || bytes.len() == 32 {
            Some(ObjectId { bytes })
        } else {
            None
        }
    }

    /// Reads an id from its hexadecimal text of 40 or 64 lowercase digits.
    pub fn from_hex(text: &Vec<u8>) -> (id: Option<ObjectId>)
        ensures
            id is Some <==> is_id_len(text@.len() / 2) && text@.len() % 2 == 0 && hex::is_hex(
                text@,
            ),
            id matches Some(i) ==> i@ == hex::bytes_of(text@),
    {
        assert(text@.subrange(0, text@.len() as int) == text@);
        match hex::read(text, 0, text.len()) {
            Some(bytes) => ObjectId::from_bytes(bytes),
            None => None,
        }
    }

    /// The bytes of the id.
    pub fn as_bytes(&self) -> (bytes: &Vec<u8>)
        ensures
            bytes@ == self@,
            is_id_len(self@.len()),
    {
        proof {
            use_type_invariant(self);
        }
        &self.bytes
    }

    /// The id in lowercase hexadecimal.
    pub fn to_hex(&self) -> (text: Vec<u8>)
        ensures
            text@ == hex::text_of(self@),
    {
        let mut text: Vec<u8> = Vec::new();
        hex::write(&self.bytes, &mut text);
        text
    }
}

impl Clone for ObjectId {
    fn clone(&self) -> (copy: Self)
        ensures
            copy@ == self@,
    {
        proof {
            use_type_invariant(self);
        }
        ObjectId { bytes: self.bytes.clone() }
    }
}

/// What a reference holds.
#[derive(Debug, PartialEq, Eq, Hash)]
pub enum Target {
    /// The reference points at an object.
    Peeled(ObjectId),
    /// The reference points at another reference, by its name.
    Symbolic(Vec<u8>),
}

/// A target as a value of the model.
pub enum TargetModel {
    Peeled(Seq<u8>),
    Symbolic(Seq<u8>),
}

impl View for Target {
    type V = TargetModel;

    open spec fn view(&self) -> TargetModel {
        match self {
            Target::Peeled(id) => TargetModel::Peeled(id@),
            Target::Symbolic(name) => TargetModel::Symbolic(name@),
        }
    }
}

/// The view of a target that may be absent.
pub open spec fn optional(target: Option<Target>) -> Option<TargetModel> {
    match target {
        Some(t) => Some(t@),
        None => None,
    }
}

/// Whether a reference file can hold the target: an id has 20 or 32 bytes,
/// and a name has no newline in it.
pub open spec fn writable(target: TargetModel) -> bool {
    match target {
        TargetModel::Peeled(id) => is_id_len(id.len()),
        TargetModel::Symbolic(name) => !name.contains(NEWLINE),
    }
}

/// The content of the reference file that holds `target`.
pub open spec fn encoded(target: TargetModel) -> Seq<u8> {
    match target {
        TargetModel::Peeled(id) => hex::text_of(id).push(NEWLINE),
        TargetModel::Symbolic(name) => (symbolic_prefix() + name).push(NEWLINE),
    }
}

/// What the one line `line` of a reference file says, without its newline.
pub open spec fn decoded_line(line: Seq<u8>) -> Option<TargetModel> {
    if symbolic_prefix().is_prefix_of(line) {
        Some(TargetModel::Symbolic(line.skip(5)))
    } else if line.len() % 2 == 0 && is_id_len(line.len() / 2) && hex::is_hex(line) {
        Some(TargetModel::Peeled(hex::bytes_of(line)))
    } else {
        None
    }
}

/// The target that a reference file with this content holds, or `None` where
/// the content is not one line in one of the two forms.
pub open spec fn decoded(content: Seq<u8>) -> Option<TargetModel> {
    if content.len() > 0 && content.last() == NEWLINE && !content.drop_last().contains(NEWLINE) {
        decoded_line(content.drop_last())
    } else {
        None
    }
}

/// A target that is written and read back is the same target.
pub proof fn written_target_is_read_back(target: TargetModel)
    requires
        writable(target),
    ensures
        decoded(encoded(target)) == Some(target),
{
    let content = encoded(target);
    match target {
        TargetModel::Peeled(id) => {
            let line = hex::text_of(id);
            hex::text_of_is_read_back(id);
            assert(content.drop_last() =~= line);
            assert(!line.contains(NEWLINE)) by {
                if line.contains(NEWLINE) {
                    let i = choose|i: int| 0 <= i < line.len() && line[i] == NEWLINE;
                    assert(hex::is_digit(line[i]));
                }
            }
            assert(hex::is_digit(line[0]));
            assert(symbolic_prefix()[0] == 0x72u8);
            assert(!symbolic_prefix().is_prefix_of(line)) by {
                if symbolic_prefix().is_prefix_of(line) {
                    assert(line[0] == symbolic_prefix()[0]);
                }
            }
            assert(line.len() / 2 == id.len());
        },
        TargetModel::Symbolic(name) => {
            let line = symbolic_prefix() + name;
            assert(content.drop_last() =~= line);
            assert(!line.contains(NEWLINE)) by {
                if line.contains(NEWLINE) {
                    let i = choose|i: int| 0 <= i < line.len() && line[i] == NEWLINE;
                    if i >= 5 {
                        assert(name[i - 5] == NEWLINE);
                    }
                }
            }
            assert(symbolic_prefix().is_prefix_of(line)) by {
                assert(line.subrange(0, 5) =~= symbolic_prefix());
            }
            assert(line.skip(5) =~= name);
        },
    }
}

/// A reference file that can be read holds exactly what writing its target
/// gives, and that target can be written.
pub proof fn read_content_is_written_back(content: Seq<u8>)
    requires
        decoded(content) is Some,
    ensures
        writable(decoded(content)->0),
        encoded(decoded(content)->0) == content,
{
    let line = content.drop_last();
    let target = decoded(content)->0;
    assert(content =~= line.push(NEWLINE));
    match target {
        TargetModel::Peeled(id) => {
            hex::bytes_of_is_written_back(line);
        },
        TargetModel::Symbolic(name) => {
            assert(symbolic_prefix() + name =~= line) by {
                assert(line.subrange(0, 5) == symbolic_prefix());
            }
            assert(!name.contains(NEWLINE)) by {
                if name.contains(NEWLINE) {
                    let i = choose|i: int| 0 <= i < name.len() && name[i] == NEWLINE;
                    assert(line[i + 5] == NEWLINE);
                }
            }
        },
    }
}

/// Why the content of a reference file could not be read.
#[derive(Debug, PartialEq, Eq)]
pub struct DecodeError {
    /// The content as it was found.
    pub content: Vec<u8>,
}

/// Whether `content[from..to]` holds `byte`.
fn holds(content: &Vec<u8>, from: usize, to: usize, byte: u8) -> (found: bool)
    requires
        from <= to <= content.len(),
    ensures
        found == content@.subrange(from as int, to as int).contains(byte),
{
    let ghost part = content@.subrange(from as int, to as int);
    let mut i: usize = from;
    while i < to
        invariant
            from <= i <= to <= content.len(),
            part == content@.subrange(from as int, to as int),
            forall|k: int| 0 <= k < i - from ==> part[k] != byte,
        decreases to - i,
    {
        if content[i] == byte {
            assert(part[i - from] == byte);
            return true;
        }
        i += 1;
    }
    false
}

/// Whether `content` begins with `ref: `.
fn is_symbolic(content: &Vec<u8>) -> (yes: bool)
    ensures
        yes == symbolic_prefix().is_prefix_of(content@),
{
    if content.len() < 5 {
        return false;
    }
    let yes = content[0] == 0x72 && content[1] == 0x65 && content[2] == 0x66 && content[3] == 0x3a
        && content[4] == 0x20;
    proof {
        if yes {
            assert(content@.subrange(0, 5) =~= symbolic_prefix());
        } else {
            if symbolic_prefix().is_prefix_of(content@) {
                assert(forall|i: int| 0 <= i < 5 ==> content@[i] == symbolic_prefix()[i]);
            }
        }
    }
    yes
}

impl Target {
    /// The content of the reference file that holds this target.
    pub fn encode(&self) -> (content: Vec<u8>)
        ensures
            content@ == encoded(self@),
    {
        let mut content: Vec<u8> = Vec::new();
        match self {
            Target::Peeled(id) => {
                hex::write(id.as_bytes(), &mut content);
                content.push(NEWLINE);
            },
            Target::Symbolic(name) => {
                content.push(0x72);
                content.push(0x65);
                content.push(0x66);
                content.push(0x3a);
                content.push(0x20);
                let ghost head = content@;
                assert(head =~= symbolic_prefix());
                let mut i: usize = 0;
                while i < name.len()
                    invariant
                        i <= name.len(),
                        content@ == head + name@.subrange(0, i as int),
                    decreases name.len() - i,
                {
                    content.push(name[i]);
                    assert(name@.subrange(0, i + 1) == name@.subrange(0, i as int).push(
                        name@[i as int],
                    ));
                    i += 1;
                }
                assert(name@.subrange(0, name.len() as int) == name@);
                content.push(NEWLINE);
            },
        }
        content
    }

    /// Reads the content of a reference file.
    pub fn decode(content: &Vec<u8>) -> (target: Result<Target, DecodeError>)
        ensures
            match target {
                Ok(t) => decoded(content@) == Some(t@),
                Err(e) => decoded(content@) is None && e.content@ == content@,
            },
    {
        let n = content.len();
        if n == 0 || content[n - 1] != NEWLINE {
            return Err(DecodeError { content: content.clone() });
        }
        let ghost line = content@.drop_last();
        assert(line == content@.subrange(0, n - 1));
        if holds(content, 0, n - 1, NEWLINE) {
            return Err(DecodeError { content: content.clone() });
        }
        if is_symbolic(content) {
            let mut name: Vec<u8> = Vec::new();
            let mut i: usize = 5;
            assert(symbolic_prefix().is_prefix_of(line)) by {
                assert(content@[4] == symbolic_prefix()[4]);
                assert(line.subrange(0, 5) =~= content@.subrange(0, 5));
            }
            while i < n - 1
                invariant
                    5 <= i <= n - 1,
                    n == content.len(),
                    line == content@.subrange(0, n - 1),
                    name@ == line.subrange(5, i as int),
                decreases n - i,
            {
                name.push(content[i]);
                assert(line.subrange(5, i + 1) == line.subrange(5, i as int).push(line[i as int]));
                i += 1;
            }
            assert(line.subrange(5, n - 1) == line.skip(5));
            Ok(Target::Symbolic(name))
        } else {
            assert(!symbolic_prefix().is_prefix_of(line)) by {
                if symbolic_prefix().is_prefix_of(line) {
                    assert(content@.subrange(0, 5) =~= line.subrange(0, 5));
                }
            }
            match hex::read(content, 0, n - 1) {
                Some(bytes) => match ObjectId::from_bytes(bytes) {
                    Some(id) => Ok(Target::Peeled(id)),
                    None => Err(DecodeError { content: content.clone() }),
                },
                None => Err(DecodeError { content: content.clone() }),
            }
        }
    }

    /// Whether the two targets are the same.
    pub fn same_as(&self, other: &Target) -> (same: bool)
        ensures
            same == (self@ == other@),
    {
        match (self, other) {
            (Target::Peeled(a), Target::Peeled(b)) => crate::bytes::equal(
                a.as_bytes(),
                b.as_bytes(),
            ),
            (Target::Symbolic(a), Target::Symbolic(b)) => crate::bytes::equal(a, b),
            _ => false,
        }
    }
}

impl Clone for Target {
    fn clone(&self) -> (copy: Self)
        ensures
            copy@ == self@,
    {
        match self {
            Target::Peeled(id) => Target::Peeled(id.clone()),
            Target::Symbolic(name) => Target::Symbolic(name.clone()),
        }
    }
}

/// Whether the two targets, either of which may be absent, are the same.
pub fn same_target(a: &Option<Target>, b: &Option<Target>) -> (same: bool)
    ensures
        same == (optional(*a) == optional(*b)),
{
    match (a, b) {
        (Some(x), Some(y)) => x.same_as(y),
        (None, None) => true,
        _ => false,
    }
}

} // verus!
