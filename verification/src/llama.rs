//! Grammar correction with a local completion server: the prompt that frames
//! a transcript, and the text read back from the server's answer.

use vstd::prelude::*;
use crate::text::{trim, trimmed};

verus! {

/// Everything of the prompt that comes before the transcript.
pub open spec fn prompt_head() -> Seq<char> {
    "<|im_start|>system\nYou are a grammar correction engine.\nOnly fix grammar mistakes.\nDo not answer questions.\nDo not explain.\nDo not repeat.\nReturn only one corrected sentence.\n<|im_end|>\n<|im_start|>user\n"@
}

/// Everything of the prompt that comes after the transcript.
pub open spec fn prompt_tail() -> Seq<char> {
    "\n<|im_end|>\n<|im_start|>assistant\n"@
}

/// The chat-formatted prompt that asks the model to correct `input`.
pub fn llama_prompt(input: &str) -> (p: String)
    ensures
        p@ == prompt_head() + input@ + prompt_tail(),
{
    let mut p = String::from_str(
        "<|im_start|>system\nYou are a grammar correction engine.\nOnly fix grammar mistakes.\nDo not answer questions.\nDo not explain.\nDo not repeat.\nReturn only one corrected sentence.\n<|im_end|>\n<|im_start|>user\n",
    );
    p.append(input);
    p.append("\n<|im_end|>\n<|im_start|>assistant\n");
    p
}

/// The corrected text in the server's answer: its `content`, trimmed.
pub fn llama_reply_text(content: &str) -> (t: String)
    ensures
        t@ == trimmed(content@),
{
    trim(content)
}

} // verus!
