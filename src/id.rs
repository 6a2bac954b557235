//! Hierarchical agent names: a root segment followed by one segment per
//! generation, rendered as `root/child/grandchild`.
use vstd::prelude::*;
use vstd::string::*;

verus! {

broadcast use vstd::string::is_ascii_spec_bytes;

/// Why an agent could not be configured or registered.
#[derive(Debug, Clone, Copy, PartialEq, Eq, Structural)]
pub enum ConfigError {
    /// A name segment is empty or holds a character other than an ASCII
    /// letter, digit, `_` or `-`.
    InvalidName,
    /// The named parent is not registered.
    UnknownParent,
    /// The named parent has already stopped.
    ParentStopped,
    /// A running agent already has this id.
    DuplicateId,
    /// Every agent key is in use.
    RegistryFull,
}

pub open spec fn is_name_char(c: char) -> bool {
    ('a' <= c <= 'z') || ('A' <= c <= 'Z') || ('0' <= c <= '9') || c == '_' || c == '-'
}

/// A segment is a non-empty run of name characters.
pub open spec fn valid_segment(s: Seq<char>) -> bool {
    &&& s.len() > 0
    &&& forall|i: int| 0 <= i < s.len() ==> is_name_char(#[trigger] s[i])
}

/// A path has at least its root segment, and every segment is valid.
pub open spec fn valid_path(p: Seq<Seq<char>>) -> bool {
    &&& p.len() > 0
    &&& forall|i: int| 0 <= i < p.len() ==> valid_segment(#[trigger] p[i])
}

/// `a` is a proper ancestor path of `b`.
pub open spec fn is_strict_prefix(a: Seq<Seq<char>>, b: Seq<Seq<char>>) -> bool {
    a.len() < b.len() && b.subrange(0, a.len() as int) == a
}

/// The segments joined by `/`.
pub open spec fn render_path(p: Seq<Seq<char>>) -> Seq<char>
    decreases p.len(),
{
    if p.len() <= 1 {
        if p.len() == 1 {
            p[0]
        } else {
            Seq::empty()
        }
    } else {
        render_path(p.drop_last()) + seq!['/'] + p.last()
    }
}

fn is_name_byte(b: u8) -> (r: bool)
    ensures
        r == is_name_char(b as char),
{
    (97 <= b && b <= 122) || (65 <= b && b <= 90) || (48 <= b && b <= 57) || b == 95 || b == 45
}

/// Whether `name` is a valid segment.
pub fn check_segment(name: &str) -> (r: bool)
    ensures
        r == valid_segment(name@),
{
    if !name.is_ascii() {
        proof {
            if valid_segment(name@) {
                assert forall|i: int| 0 <= i < name@.len() implies '\0' <= #[trigger] name@[i]
                    <= '\u{7f}' by {
                    assert(is_name_char(name@[i]));
                }
            }
        }
        return false;
    }
    let bytes = name.as_bytes();
    proof {
        vstd::utf8::is_ascii_chars_encode_utf8(name@);
    }
    if bytes.len() == 0 {
        return false;
    }
    let mut i: usize = 0;
    while i < bytes.len()
        invariant
            bytes@ == name.spec_bytes(),
            is_ascii(name),
            bytes@.len() == name@.len(),
            forall|j: int| 0 <= j < bytes@.len() ==> name@[j] as u8 == #[trigger] bytes@[j],
            0 <= i <= bytes@.len(),
            forall|j: int| 0 <= j < i ==> is_name_char(#[trigger] name@[j]),
        decreases bytes@.len() - i,
    {
        let b = bytes[i];
        assert('\0' <= name@[i as int] <= '\u{7f}');
        assert(name@[i as int] as u8 as char == name@[i as int]);
        if !is_name_byte(b) {
            return false;
        }
        i += 1;
    }
    true
}

/// The name of an agent.
#[derive(Debug, Clone)]
pub struct AgentId {
    segments: Vec<String>,
}

impl View for AgentId {
    type V = Seq<Seq<char>>;

    closed spec fn view(&self) -> Seq<Seq<char>> {
        self.segments@.map_values(|s: String| s@)
    }
}

impl AgentId {
    pub open spec fn wf(&self) -> bool {
        valid_path(self@)
    }

    /// A top-level id made of the single segment `name`.
    pub fn with_root(name: &str) -> (r: Result<AgentId, ConfigError>)
        ensures
            r is Ok <==> valid_segment(name@),
            r matches Ok(id) ==> id@ == seq![name@] && id.wf(),
            r matches Err(e) ==> e == ConfigError::InvalidName,
    {
        if !check_segment(name) {
            return Err(ConfigError::InvalidName);
        }
        let mut segments: Vec<String> = Vec::new();
        segments.push(name.to_owned());
        let id = AgentId { segments };
        assert(id@ =~= seq![name@]);
        Ok(id)
    }

    /// The id of a child called `name`: this id with `name` appended.
    pub fn child(&self, name: &str) -> (r: Result<AgentId, ConfigError>)
        requires
            self.wf(),
        ensures
            r is Ok <==> valid_segment(name@),
            r matches Ok(id) ==> id@ == self@.push(name@) && id.wf(),
            r matches Err(e) ==> e == ConfigError::InvalidName,
    {
        if !check_segment(name) {
            return Err(ConfigError::InvalidName);
        }
        let mut segments: Vec<String> = Vec::new();
        let mut i: usize = 0;
        while i < self.segments.len()
            invariant
                0 <= i <= self.segments@.len(),
                segments@.len() == i,
                forall|j: int| 0 <= j < i ==> (#[trigger] segments@[j])@ == self@[j],
            decreases self.segments@.len() - i,
        {
            let seg = self.segments[i].clone();
            assert(seg@ == self@[i as int]);
            segments.push(seg);
            i += 1;
        }
        segments.push(name.to_owned());
        let id = AgentId { segments };
        assert(id@ =~= self@.push(name@));
        proof {
            assert forall|j: int| 0 <= j < id@.len() implies valid_segment(#[trigger] id@[j]) by {
                if j < self@.len() {
                    assert(id@[j] == self@[j]);
                }
            }
        }
        Ok(id)
    }

    /// A copy of this id.
    pub fn copy(&self) -> (r: AgentId)
        ensures
            r@ == self@,
    {
        let mut segments: Vec<String> = Vec::new();
        let mut i: usize = 0;
        while i < self.segments.len()
            invariant
                0 <= i <= self.segments@.len(),
                segments@.len() == i,
                forall|j: int| 0 <= j < i ==> (#[trigger] segments@[j])@ == self@[j],
            decreases self.segments@.len() - i,
        {
            let seg = self.segments[i].clone();
            assert(seg@ == self@[i as int]);
            segments.push(seg);
            i += 1;
        }
        let id = AgentId { segments };
        assert(id@ =~= self@);
        id
    }

    /// Number of segments; a top-level id has one.
    pub fn depth(&self) -> (r: usize)
        ensures
            r == self@.len(),
    {
        self.segments.len()
    }

    /// Whether the two ids are the same name.
    pub fn same_as(&self, other: &AgentId) -> (r: bool)
        ensures
            r == (self@ == other@),
    {
        if self.segments.len() != other.segments.len() {
            return false;
        }
        self.shares_prefix(other, self.segments.len())
    }

    /// Whether `self` names a proper ancestor of `other`.
    pub fn is_ancestor_of(&self, other: &AgentId) -> (r: bool)
        ensures
            r == is_strict_prefix(self@, other@),
    {
        if self.segments.len() >= other.segments.len() {
            return false;
        }
        let r = self.shares_prefix(other, self.segments.len());
        assert(self@.subrange(0, self@.len() as int) =~= self@);
        r
    }

    fn shares_prefix(&self, other: &AgentId, n: usize) -> (r: bool)
        requires
            n <= self@.len(),
            n <= other@.len(),
        ensures
            r == (self@.subrange(0, n as int) == other@.subrange(0, n as int)),
            n == self@.len() && n == other@.len() ==> (r == (self@ == other@)),
    {
        let mut i: usize = 0;
        while i < n
            invariant
                0 <= i <= n,
                n <= self@.len(),
                n <= other@.len(),
                self@.subrange(0, i as int) =~= other@.subrange(0, i as int),
            decreases n - i,
        {
            if self.segments[i] != other.segments[i] {
                assert(self@.subrange(0, n as int)[i as int] != other@.subrange(0, n as int)[i as int]);
                return false;
            }
            assert(self@.subrange(0, i + 1) =~= other@.subrange(0, i + 1)) by {
                assert(self@[i as int] == other@[i as int]);
            }
            i += 1;
        }
        assert(n == self@.len() ==> self@.subrange(0, n as int) =~= self@);
        assert(n == other@.len() ==> other@.subrange(0, n as int) =~= other@);
        true
    }

    /// The segments joined by `/`, as in `parent/child`.
    pub fn render(&self) -> (r: String)
        requires
            self.wf(),
        ensures
            r@ == render_path(self@),
    {
        let mut out = self.segments[0].clone();
        let mut i: usize = 1;
        proof {
            assert(self@.subrange(0, 1).drop_last() =~= Seq::<Seq<char>>::empty());
            assert(render_path(self@.subrange(0, 1)) == self@[0]);
        }
        while i < self.segments.len()
            invariant
                1 <= i <= self@.len(),
                out@ == render_path(self@.subrange(0, i as int)),
            decreases self@.len() - i,
        {
            out.append("/");
            out.append(self.segments[i].as_str());
            proof {
                reveal_strlit("/");
                let p = self@.subrange(0, i + 1);
                assert(p.drop_last() =~= self@.subrange(0, i as int));
                assert(p.last() == self@[i as int]);
            }
            i += 1;
        }
        assert(self@.subrange(0, self@.len() as int) =~= self@);
        out
    }
}

} // verus!
