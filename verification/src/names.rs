//! The fixed names that the transform looks for and writes.

use crate::text::{lex_lt, precedes_at};
use vstd::prelude::*;

verus! {

/// Tag name of the element that is rewritten.
pub const MARKER: &'static str = "OpenGraph";

/// Tag name of the element that takes its place.
pub const IMAGE_TAG: &'static str = "img";

/// Name of the attribute that holds the address of the image.
pub const SOURCE_ATTR: &'static str = "src";

/// Name of the constant that holds what the server returned.
pub const RESULT: &'static str = "img";

/// Name of the property of [`RESULT`] that holds the address of the image.
pub const SOURCE_FIELD: &'static str = "src";

/// Export, and local binding, of the function that runs a callback on the
/// server.
pub const WRAPPER: &'static str = "server$";

/// Module that exports [`WRAPPER`].
pub const WRAPPER_SOURCE: &'static str = "solid-start/server";

/// Export of the function that renders an element into an image.
pub const GENERATOR: &'static str = "createOpenGraphImage";

/// Local binding of [`GENERATOR`].
pub const GENERATOR_BINDING: &'static str = "createOpenGraphImage$";

/// Module that exports [`GENERATOR`].
pub const GENERATOR_SOURCE: &'static str = "@solid-mediakit/open-graph";

/// The image tag is not the marker, so a rewritten element is not rewritten
/// again.
pub proof fn lemma_image_tag_is_no_marker()
    ensures
        IMAGE_TAG@ != MARKER@,
{
    reveal_strlit("img");
    reveal_strlit("OpenGraph");
    assert(IMAGE_TAG@.len() == 3);
    assert(MARKER@.len() == 9);
}

/// The generator is listed before the wrapper.
pub proof fn lemma_generator_before_wrapper()
    ensures
        lex_lt(GENERATOR@, WRAPPER@),
{
    reveal_strlit("createOpenGraphImage");
    reveal_strlit("server$");
    assert(GENERATOR@[0] == 'c');
    assert(WRAPPER@[0] == 's');
    assert(precedes_at(GENERATOR@, WRAPPER@, 0));
}

/// The two required symbols have different names, so a table holds both.
pub proof fn lemma_generator_is_not_wrapper()
    ensures
        GENERATOR@ != WRAPPER@,
{
    reveal_strlit("createOpenGraphImage");
    reveal_strlit("server$");
    assert(GENERATOR@.len() == 20);
    assert(WRAPPER@.len() == 7);
}

} // verus!
