//! Plain values exchanged with the remote service and the agent.
use vstd::prelude::*;
use crate::text::text_eq;
use vstd::string::StringSliceAdditionalSpecFns;
use vstd::utf8::{
    decode_utf8, encode_utf8, encode_utf8_decode_utf8, encode_utf8_valid_utf8, is_char_boundary,
    is_char_boundary_start_end_of_seq, valid_utf8,
};

verus! {

/// A piece of context found by an embeddings search.
#[derive(Debug, Clone)]
pub enum Embedding {
    Code { repo: String, file: String, start: usize, finish: usize, content: String },
    Text { repo: String, file: String, start: usize, finish: usize, content: String },
}

#[derive(Debug, Clone, Copy, PartialEq, Eq, Structural)]
pub enum CodySpeaker {
    Human,
    Assistant,
}

#[derive(Debug, Clone)]
pub struct CodyMessage {
    pub speaker: CodySpeaker,
    pub text: String,
}

/// What the remote service says about a path at a commit.
#[derive(Debug, Clone)]
pub struct PathInfo {
    pub remote: String,
    pub oid: String,
    pub path: String,
    pub is_directory: bool,
}

#[derive(Debug, Clone)]
pub struct SourcegraphVersion {
    pub product: String,
    pub build: String,
}

/// A repository name on the remote service, such as `github.com/acme/widgets`.
#[derive(Debug, Clone)]
pub struct Remote(pub String);

/// A revision: a commit hash or a symbolic name.
#[derive(Debug, Clone)]
pub struct OID(pub String);

#[derive(Debug, Clone)]
pub struct SearchResult {
    pub repo: String,
    pub file: String,
    pub preview: String,
    pub line: usize,
}

#[derive(Debug, Clone)]
pub struct RecipeInfo {
    pub id: String,
    pub title: String,
}

/// The assistant's opening turn in a completion conversation.
pub const COMPLETION_PREAMBLE: &'static str = "I am Cody, an AI-powered coding assistant developed by Sourcegraph. I operate inside a Language Server Protocol implementation. My task is to help programmers with programming tasks in the %s programming language.
    I have access to your currently open files in the editor.
    I will generate suggestions as concisely and clearly as possible.
    I only suggest something if I am certain about my answer.";

/// The conversation sent for a completion: the assistant's preamble, the
/// human's text, then the assistant's turn begun with `prefix` (empty if none).
pub open spec fn is_completion_conversation(m: Seq<CodyMessage>, text: Seq<char>, prefix: Option<Seq<char>>) -> bool {
    &&& m.len() == 3
    &&& m[0].speaker == CodySpeaker::Assistant && m[0].text@ == COMPLETION_PREAMBLE@
    &&& m[1].speaker == CodySpeaker::Human && m[1].text@ == text
    &&& m[2].speaker == CodySpeaker::Assistant && m[2].text@ == match prefix {
        Some(p) => p,
        None => Seq::<char>::empty(),
    }
}

pub fn completion_messages(text: String, prefix: Option<String>) -> (r: Vec<CodyMessage>)
    ensures
        is_completion_conversation(
            r@,
            text@,
            match prefix {
                Some(p) => Some(p@),
                None => None,
            },
        ),
{
    let opening = String::from_str(COMPLETION_PREAMBLE);
    let started = match prefix {
        Some(p) => p,
        None => String::new(),
    };
    let mut r: Vec<CodyMessage> = Vec::new();
    r.push(CodyMessage { speaker: CodySpeaker::Assistant, text: opening });
    r.push(CodyMessage { speaker: CodySpeaker::Human, text });
    r.push(CodyMessage { speaker: CodySpeaker::Assistant, text: started });
    r
}

/// The short form of a remote: `gh` for `github.com`, else the name itself.
pub open spec fn shortened_remote(r: Seq<char>) -> Seq<char> {
    if r == "github.com"@ {
        "gh"@
    } else {
        r
    }
}

/// The largest character boundary of `b` that is at most `k`.
pub open spec fn boundary_at_most(b: Seq<u8>, k: int) -> int
    decreases k,
{
    if k <= 0 {
        0
    } else if is_char_boundary(b, k) {
        k
    } else {
        boundary_at_most(b, k - 1)
    }
}

proof fn lemma_boundary_past_end(b: Seq<u8>, k: int)
    requires
        valid_utf8(b),
        b.len() <= k,
    ensures
        boundary_at_most(b, k) == b.len(),
    decreases k - b.len(),
{
    is_char_boundary_start_end_of_seq(b);
    if k > b.len() {
        lemma_boundary_past_end(b, k - 1);
    }
}

/// The short form of a revision: its first five bytes. A revision shorter
/// than that stays whole; where the fifth byte falls inside a character, the
/// cut moves back to the character boundary before it.
pub open spec fn shortened_oid(o: Seq<char>) -> Seq<char> {
    let b = encode_utf8(o);
    if b.len() < 5 {
        o
    } else {
        decode_utf8(b.subrange(0, boundary_at_most(b, 5)))
    }
}

impl Remote {
    pub fn shortened(&self) -> (r: String)
        ensures
            r@ == shortened_remote(self.0@),
    {
        if text_eq(self.0.as_str(), "github.com") {
            String::from_str("gh")
        } else {
            String::from_str(self.0.as_str())
        }
    }
}

impl OID {
    pub fn shortened(&self) -> (r: String)
        ensures
            r@ == shortened_oid(self.0@),
    {
        let s = self.0.as_str();
        let ghost b = s.spec_bytes();
        let mut k: usize = 5;
        while k > 0 && !s.is_char_boundary(k)
            invariant
                k <= 5,
                b == s.spec_bytes(),
                boundary_at_most(b, 5) == boundary_at_most(b, k as int),
            decreases k,
        {
            k = k - 1;
        }
        proof {
            encode_utf8_valid_utf8(s@);
            if b.len() < 5 {
                lemma_boundary_past_end(b, 5);
                encode_utf8_decode_utf8(s@);
                assert(b.subrange(0, b.len() as int) =~= b);
            }
        }
        let (head, _) = s.split_at(k);
        proof {
            encode_utf8_decode_utf8(head@);
        }
        String::from_str(head)
    }
}

impl From<String> for Remote {
    fn from(value: String) -> (r: Remote)
        ensures
            r.0@ == value@,
    {
        Remote(value)
    }
}

impl vstd::std_specs::convert::FromSpecImpl<String> for Remote {
    open spec fn obeys_from_spec() -> bool {
        true
    }

    open spec fn from_spec(v: String) -> Remote {
        Remote(v)
    }
}

impl From<String> for OID {
    fn from(value: String) -> (r: OID)
        ensures
            r.0@ == value@,
    {
        OID(value)
    }
}

impl vstd::std_specs::convert::FromSpecImpl<String> for OID {
    open spec fn obeys_from_spec() -> bool {
        true
    }

    open spec fn from_spec(v: String) -> OID {
        OID(v)
    }
}

} // verus!
