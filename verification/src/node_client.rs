//! The values exchanged with a node: the work it hands out and the
//! solutions handed back. Transport and encoding are the caller's; here is
//! what the values mean.

use crate::evaluator::Solution;
use crate::hexcode::{
    bytes_to_hex, hex_decoded, hex_encoded, hex_to_bytes, is_hex_text, text_bytes, InputError,
};
use crate::target::{
    bits_of_text, compact_target, is_bits_text, normalized, resolve_target, Target,
};
use vstd::prelude::*;
use vstd::string::StringExecFns;

verus! {

/// Work handed out by a node.
#[derive(Debug)]
pub struct MiningTemplate {
    pub height: u64,
    pub header_prefix_hex: String,
    pub difficulty_bits: String,
    pub target_hex: String,
    pub timestamp: u64,
    pub miner_address: String,
}

/// A solution as it is handed to a node.
#[derive(Debug)]
pub struct MiningSubmission {
    pub height: u64,
    pub mutation_vector_hex: String,
    pub timestamp: u64,
    pub miner_address: Option<String>,
}

/// A node's answer to a submission.
#[derive(Debug)]
pub struct SubmissionResponse {
    pub success: bool,
    pub message: String,
    pub hash: Option<String>,
}

/// The word `null`, which a node may send in place of a target.
pub open spec fn null_word() -> Seq<u8> {
    seq![0x6eu8, 0x75u8, 0x6cu8, 0x6cu8]
}

/// Whether a template's target field names a target: it is neither empty
/// nor the word `null`.
pub open spec fn names_target(text: Seq<u8>) -> bool {
    text.len() > 0 && text != null_word()
}

/// Whether `text` names a target.
pub fn has_explicit_target(text: &str) -> (r: bool)
    ensures
        r == names_target(text_bytes(text@)),
{
    let bytes = text.as_bytes();
    if bytes.len() == 0 {
        return false;
    }
    let is_null = bytes.len() == 4 && bytes[0] == 0x6e && bytes[1] == 0x75 && bytes[2] == 0x6c
        && bytes[3] == 0x6c;
    proof {
        if is_null {
            assert(bytes@ =~= null_word());
        } else if bytes@ == null_word() {
            assert(null_word().len() == 4);
            assert(null_word()[0] == 0x6e && null_word()[1] == 0x75 && null_word()[2] == 0x6c
                && null_word()[3] == 0x6c);
        }
    }
    !is_null
}

impl MiningTemplate {
    /// The header prefix of this template, decoded from hexadecimal.
    pub fn header_prefix(&self) -> (r: Result<Vec<u8>, InputError>)
        ensures
            r is Ok <==> is_hex_text(text_bytes(self.header_prefix_hex@)),
            r is Ok ==> r->Ok_0@ == hex_decoded(text_bytes(self.header_prefix_hex@)),
            r is Err ==> r->Err_0 == InputError::MalformedHex,
    {
        hex_to_bytes(self.header_prefix_hex.as_str())
    }

    /// The target of this template. Where the target field names a target,
    /// that one is decoded and the difficulty bits are not looked at;
    /// otherwise the difficulty bits are decoded.
    pub fn target(&self) -> (r: Result<Target, InputError>)
        ensures
            names_target(text_bytes(self.target_hex@)) ==> {
                &&& r is Ok <==> is_hex_text(text_bytes(self.target_hex@))
                &&& r is Ok ==> r->Ok_0.bytes@ == normalized(
                    hex_decoded(text_bytes(self.target_hex@)),
                )
                &&& r is Err ==> r->Err_0 == InputError::MalformedHex
            },
            !names_target(text_bytes(self.target_hex@)) ==> {
                &&& r is Ok <==> is_bits_text(text_bytes(self.difficulty_bits@))
                &&& r is Ok ==> r->Ok_0@ == compact_target(
                    bits_of_text(text_bytes(self.difficulty_bits@)) as u32,
                )
                &&& r is Err ==> r->Err_0 == InputError::InvalidBits
            },
    {
        if has_explicit_target(self.target_hex.as_str()) {
            resolve_target(Some(self.target_hex.as_str()), self.difficulty_bits.as_str())
        } else {
            resolve_target(None, self.difficulty_bits.as_str())
        }
    }
}

impl MiningSubmission {
    /// The submission of a solution found for the work at `height` that was
    /// handed out at `timestamp`. The mutation vector is carried in
    /// lower-case hexadecimal.
    pub fn for_solution(
        height: u64,
        solution: &Solution,
        timestamp: u64,
        miner_address: Option<String>,
    ) -> (s: MiningSubmission)
        ensures
            s.height == height,
            s.timestamp == timestamp,
            s.miner_address == miner_address,
            s.mutation_vector_hex@ == hex_encoded(solution.mutation_vector@),
    {
        MiningSubmission {
            height,
            mutation_vector_hex: bytes_to_hex(solution.mutation_vector.as_slice()),
            timestamp,
            miner_address,
        }
    }
}

impl MiningTemplate {
    /// Why this template cannot be worked on, if it cannot: its header
    /// prefix is no hexadecimal text, or its target is not to be had.
    pub open spec fn defect(self) -> Option<InputError> {
        if !is_hex_text(text_bytes(self.header_prefix_hex@)) {
            Some(InputError::MalformedHex)
        } else if names_target(text_bytes(self.target_hex@)) {
            if is_hex_text(text_bytes(self.target_hex@)) {
                None
            } else {
                Some(InputError::MalformedHex)
            }
        } else if is_bits_text(text_bytes(self.difficulty_bits@)) {
            None
        } else {
            Some(InputError::InvalidBits)
        }
    }

    /// Whether `header_prefix` and `target` are the work of this template:
    /// the header prefix decoded from hexadecimal and, where the target
    /// field names a target, that target brought to 32 bytes, else the
    /// target that the difficulty bits decode to.
    pub open spec fn has_work(self, header_prefix: Seq<u8>, target: Target) -> bool {
        &&& header_prefix == hex_decoded(text_bytes(self.header_prefix_hex@))
        &&& names_target(text_bytes(self.target_hex@)) ==> target.bytes@ == normalized(
            hex_decoded(text_bytes(self.target_hex@)),
        )
        &&& !names_target(text_bytes(self.target_hex@)) ==> target@ == compact_target(
            bits_of_text(text_bytes(self.difficulty_bits@)) as u32,
        )
    }

    /// What a search for this template works on: the header prefix and the
    /// target. The header prefix is read first, so that a template with two
    /// defects is rejected for its header prefix.
    pub fn work(&self) -> (r: Result<(Vec<u8>, Target), InputError>)
        ensures
            r is Ok <==> self.defect() is None,
            r matches Err(e) ==> self.defect() == Some(e),
            r matches Ok(w) ==> self.has_work(w.0@, w.1),
    {
        let header_prefix = match self.header_prefix() {
            Ok(bytes) => bytes,
            Err(e) => {
                return Err(e);
            },
        };
        match self.target() {
            Ok(target) => Ok((header_prefix, target)),
            Err(e) => Err(e),
        }
    }
}

/// Where a node is reached, and on whose account work is asked for.
#[derive(Debug)]
pub struct NodeClient {
    pub base_url: String,
    pub miner_address: Option<String>,
}

impl NodeClient {
    /// A client of the node at `base_url`, with no miner address.
    pub fn new(base_url: String) -> (c: NodeClient)
        ensures
            c.base_url == base_url,
            c.miner_address is None,
    {
        NodeClient { base_url, miner_address: None }
    }

    /// The same client with a miner address, which from then on goes with
    /// every request for a template and with every submission.
    pub fn with_miner_address(self, address: String) -> (c: NodeClient)
        ensures
            c.base_url == self.base_url,
            c.miner_address == Some(address),
    {
        NodeClient { base_url: self.base_url, miner_address: Some(address) }
    }

    /// The text of the address at which templates are fetched:
    /// `/mining/template` under the base, with the miner address as the
    /// query `address` where there is one.
    pub open spec fn template_url_text(self) -> Seq<char> {
        match self.miner_address {
            Some(address) => self.base_url@ + "/mining/template"@ + "?address="@ + address@,
            None => self.base_url@ + "/mining/template"@,
        }
    }

    /// The address at which templates are fetched.
    pub fn template_url(&self) -> (url: String)
        ensures
            url@ == self.template_url_text(),
    {
        let mut url = self.base_url.clone();
        url.append("/mining/template");
        match &self.miner_address {
            Some(address) => {
                url.append("?address=");
                url.append(address.as_str());
            },
            None => {},
        }
        url
    }

    /// The address at which solutions are submitted: `/mining/submit` under
    /// the base.
    pub fn submit_url(&self) -> (url: String)
        ensures
            url@ == self.base_url@ + "/mining/submit"@,
    {
        let mut url = self.base_url.clone();
        url.append("/mining/submit");
        url
    }
}

} // verus!
