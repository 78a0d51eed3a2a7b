//! What is handed to the naming oracle: the instructions that ask for a file
//! name, and the image as a data URL.

use base64::Engine;
use vstd::prelude::*;
use vstd::string::StringExecFns;

verus! {

/// What a data URL for the image begins with.
pub const DATA_URL_HEAD: &'static str = "data:image/jpeg;base64,";

/// The instructions up to the name of the file.
pub const PROMPT_HEAD: &'static str =
    "Return a filename that describes this image, including the extension and optionally the date information from\n                       the original name: ";

/// The instructions between the name of the file and the date hint.
pub const PROMPT_FORMAT: &'static str =
    " in the format of YYYY-MM-DD at the beginning of the filename.\n\n                       ";

/// The instructions after the date hint.
pub const PROMPT_RULES: &'static str =
    "\n\n                       The words in the filename should be capitlized.\n\n                       The filename should use dashes to separate words and should not include any special characters.\n\n                       The filename should be no more than 64 characters long, not including the date information.";

/// What introduces the date hint.
pub const DATE_HEAD: &'static str =
    "If the original filename doesn't contain date information, use this date instead: ";

/// The standard base64 encoding, with padding, of some bytes.
pub uninterp spec fn base64_standard(bytes: Seq<u8>) -> Seq<char>;

/// The encoded length of `len` bytes fits in `usize`.
pub open spec fn encodable(len: nat) -> bool {
    (len / 3) * 4 + 4 <= usize::MAX
}

/// Calls `base64::Engine::encode` on the `STANDARD` engine. Trusted: the
/// result is the text named by `base64_standard`. The call panics where the
/// encoded length overflows `usize`, so such input is left out.
#[verifier::external_body]
fn encode_base64(bytes: &[u8]) -> (r: String)
    requires
        encodable(bytes@.len()),
    ensures
        r@ == base64_standard(bytes@),
{
    base64::prelude::BASE64_STANDARD.encode(bytes)
}

/// The sentence that passes the date hint on, where there is one.
pub open spec fn date_instructions(hint: Option<Seq<char>>) -> Seq<char> {
    match hint {
        Some(date) => DATE_HEAD@ + date,
        None => Seq::empty(),
    }
}

/// The instructions for a file shown as `label`, with an optional date hint.
pub open spec fn prompt_text(label: Seq<char>, hint: Option<Seq<char>>) -> Seq<char> {
    PROMPT_HEAD@ + label + PROMPT_FORMAT@ + date_instructions(hint) + PROMPT_RULES@
}

/// The image as a data URL: `None` where the image is too long to encode.
pub fn image_data_url(image: &[u8]) -> (r: Option<String>)
    ensures
        match r {
            Some(url) => encodable(image@.len()) && url@ == DATA_URL_HEAD@ + base64_standard(
                image@,
            ),
            None => !encodable(image@.len()),
        },
{
    if image.len() / 3 >= usize::MAX / 4 {
        return None;
    }
    let encoded = encode_base64(image);
    Some(data_url(encoded.as_str()))
}

/// The data URL of an image whose base64 encoding is `encoded`.
pub fn data_url(encoded: &str) -> (url: String)
    ensures
        url@ == DATA_URL_HEAD@ + encoded@,
{
    let mut url = String::from_str(DATA_URL_HEAD);
    url.append(encoded);
    url
}

/// The instructions that ask the oracle to name the file shown as `label`.
pub fn naming_prompt(label: &str, hint: Option<&str>) -> (r: String)
    ensures
        r@ == prompt_text(
            label@,
            match hint {
                Some(date) => Some(date@),
                None => None,
            },
        ),
{
    let mut prompt = String::from_str(PROMPT_HEAD);
    prompt.append(label);
    prompt.append(PROMPT_FORMAT);
    match hint {
        Some(date) => {
            prompt.append(DATE_HEAD);
            prompt.append(date);
        },
        None => {},
    }
    prompt.append(PROMPT_RULES);
    prompt
}

} // verus!
