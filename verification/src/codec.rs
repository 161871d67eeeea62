//! The codec collaborator boundary: decoding an identifier (URL or path)
//! into a document node. The collaborator is injected as a table of decode
//! outcomes that the session owner configures, so every decode is a
//! deterministic lookup with an exact contract.

use vstd::prelude::*;
use crate::schema::{Node, NodeV, clone_node, node_view};
use crate::text::str_eq;

verus! {

/// Options handed to the codec for one decode. The engine always clears
/// `format` so the surrounding document's format never leaks into the decode
/// of a pulled-in source.
pub struct DecodeOptions {
    pub media_type: Option<String>,
    pub format: Option<String>,
}

/// A structured decode failure.
pub struct CodecError {
    pub message: String,
}

/// What the codec yields for one identifier.
pub enum DecodeOutcome {
    Decoded(Node),
    Failed(String),
}

/// One configured identifier with its decode outcome.
pub struct CodecEntry {
    pub identifier: String,
    pub outcome: DecodeOutcome,
}

/// The codec collaborator: resolves an identifier into a decoded node or a
/// structured error. Later entries for the same identifier shadow earlier
/// ones.
pub struct Codec {
    pub entries: Vec<CodecEntry>,
}

/// Mathematical view of a `DecodeOutcome`.
pub ghost enum DecodeOutcomeV {
    Decoded(NodeV),
    Failed(Seq<char>),
}

pub open spec fn outcome_view(o: DecodeOutcome) -> DecodeOutcomeV {
    match o {
        DecodeOutcome::Decoded(n) => DecodeOutcomeV::Decoded(node_view(n)),
        DecodeOutcome::Failed(m) => DecodeOutcomeV::Failed(m@),
    }
}

/// The mapping from identifier to configured outcome.
pub open spec fn codec_map(s: Seq<CodecEntry>) -> Map<Seq<char>, DecodeOutcomeV>
    decreases s.len(),
{
    if s.len() == 0 {
        Map::empty()
    } else {
        codec_map(s.drop_last()).insert(s.last().identifier@, outcome_view(s.last().outcome))
    }
}

impl View for Codec {
    type V = Map<Seq<char>, DecodeOutcomeV>;

    open spec fn view(&self) -> Map<Seq<char>, DecodeOutcomeV> {
        codec_map(self.entries@)
    }
}

/// The failure text reported for an identifier the codec cannot resolve.
pub open spec fn not_found_text(id: Seq<char>) -> Seq<char> {
    "Source not found: "@ + id
}

/// What decoding an identifier yields: the configured outcome, or a
/// not-found failure for an unconfigured identifier.
pub open spec fn decode_spec(m: Map<Seq<char>, DecodeOutcomeV>, id: Seq<char>) -> DecodeOutcomeV {
    if m.contains_key(id) {
        m[id]
    } else {
        DecodeOutcomeV::Failed(not_found_text(id))
    }
}

pub proof fn lemma_codec_map_prefix(s: Seq<CodecEntry>, i: int, id: Seq<char>)
    requires
        0 <= i <= s.len(),
        forall|k: int| i <= k < s.len() ==> s[k].identifier@ != id,
    ensures
        codec_map(s).contains_key(id) == codec_map(s.subrange(0, i)).contains_key(id),
        codec_map(s).contains_key(id) ==> codec_map(s)[id] == codec_map(s.subrange(0, i))[id],
    decreases s.len() - i,
{
    if i == s.len() {
        assert(s.subrange(0, i) =~= s);
    } else {
        lemma_codec_map_prefix(s.drop_last(), i, id);
        assert(s.drop_last() =~= s.subrange(0, s.len() - 1));
        assert(s.drop_last().subrange(0, i) =~= s.subrange(0, i));
    }
}

impl Codec {
    /// A codec with no configured identifiers.
    pub fn new() -> (r: Codec)
        ensures
            r@ == Map::<Seq<char>, DecodeOutcomeV>::empty(),
    {
        Codec { entries: Vec::new() }
    }

    /// Configures the outcome for one identifier, shadowing earlier entries.
    pub fn provide(&mut self, identifier: String, outcome: DecodeOutcome)
        ensures
            final(self)@ == old(self)@.insert(identifier@, outcome_view(outcome)),
    {
        let ghost ov = outcome_view(outcome);
        self.entries.push(CodecEntry { identifier, outcome });
        proof {
            assert(self.entries@.drop_last() =~= old(self).entries@);
        }
    }

    /// Decodes an identifier. The caller must have cleared `format` in the
    /// options, so the surrounding document's format cannot steer the decode.
    pub fn decode(&self, identifier: &str, options: &DecodeOptions) -> (r: Result<
        Node,
        CodecError,
    >)
        requires
            options.format is None,
        ensures
            match r {
                Ok(n) => decode_spec(self@, identifier@) == DecodeOutcomeV::Decoded(n@),
                Err(e) => decode_spec(self@, identifier@) == DecodeOutcomeV::Failed(e.message@),
            },
    {
        let mut i: usize = self.entries.len();
        while i > 0
            invariant
                i <= self.entries.len(),
                forall|k: int|
                    i <= k < self.entries@.len() ==> self.entries@[k].identifier@ != identifier@,
            decreases i,
        {
            if str_eq(self.entries[i - 1].identifier.as_str(), identifier) {
                proof {
                    lemma_codec_map_prefix(self.entries@, i as int, identifier@);
                    let pre = self.entries@.subrange(0, i as int);
                    assert(pre.last() == self.entries@[i - 1]);
                    assert(pre.drop_last() =~= self.entries@.subrange(0, i - 1));
                    assert(codec_map(pre).contains_key(identifier@));
                    assert(codec_map(pre)[identifier@] == outcome_view(
                        self.entries@[i - 1].outcome,
                    ));
                }
                match &self.entries[i - 1].outcome {
                    DecodeOutcome::Decoded(n) => {
                        return Ok(clone_node(n));
                    },
                    DecodeOutcome::Failed(m) => {
                        return Err(CodecError { message: m.clone() });
                    },
                }
            }
            i = i - 1;
        }
        proof {
            lemma_codec_map_prefix(self.entries@, 0, identifier@);
            assert(self.entries@.subrange(0, 0) =~= Seq::<CodecEntry>::empty());
        }
        let message = String::from_str("Source not found: ").concat(identifier);
        Err(CodecError { message })
    }
}

} // verus!
