//! Laws that hold across the library's functions.
//!
//! Each proof function here states one guarantee that relates several
//! contracts; the statements are part of the library's interface.

use vstd::prelude::*;

use crate::color::Color;
use crate::dynamodb::color_item;
use crate::json::{dec_str, lemma_dec_str_injective};
use crate::mysql::color_params;

verus! {

/// Law: the relational insert's parameters determine the submitted
/// color. Rows written for distinct colors never coincide, so requests
/// for distinct colors cannot corrupt one another's rows.
pub proof fn lemma_relational_row_injective(c1: Color, c2: Color)
    ensures
        color_params(c1) == color_params(c2) ==> c1 == c2,
{
    if color_params(c1) == color_params(c2) {
        assert(color_params(c1)[0] == color_params(c2)[0]);
        assert(color_params(c1)[1] == color_params(c2)[1]);
        assert(color_params(c1)[2] == color_params(c2)[2]);
    }
}

/// Law: a document-store item determines the timestamp and the color
/// that wrote it. Items written for distinct colors, or at distinct
/// times, never coincide.
pub proof fn lemma_document_item_injective(ts1: u64, c1: Color, ts2: u64, c2: Color)
    ensures
        color_item(ts1, c1) == color_item(ts2, c2) ==> ts1 == ts2 && c1 == c2,
{
    if color_item(ts1, c1) == color_item(ts2, c2) {
        assert(color_item(ts1, c1)[0] == color_item(ts2, c2)[0]);
        assert(color_item(ts1, c1)[1] == color_item(ts2, c2)[1]);
        assert(color_item(ts1, c1)[2] == color_item(ts2, c2)[2]);
        assert(color_item(ts1, c1)[3] == color_item(ts2, c2)[3]);
        lemma_dec_str_injective(ts1 as nat, ts2 as nat);
        lemma_dec_str_injective(c1.r as nat, c2.r as nat);
        lemma_dec_str_injective(c1.g as nat, c2.g as nat);
        lemma_dec_str_injective(c1.b as nat, c2.b as nat);
    }
}

/// Law: object keys derived from distinct clock readings differ, which
/// is the uniqueness the timestamp-derived filenames rely on.
pub proof fn lemma_png_filename_injective(t1: u64, t2: u64)
    ensures
        dec_str(t1 as nat) + ".png"@ == dec_str(t2 as nat) + ".png"@ ==> t1 == t2,
{
    if dec_str(t1 as nat) + ".png"@ == dec_str(t2 as nat) + ".png"@ {
        let a = dec_str(t1 as nat);
        let b = dec_str(t2 as nat);
        reveal_strlit(".png");
        assert(a + ".png"@ == b + ".png"@);
        assert((a + ".png"@).len() == a.len() + ".png"@.len());
        assert((b + ".png"@).len() == b.len() + ".png"@.len());
        assert(a.len() == b.len());
        assert(a =~= (a + ".png"@).subrange(0, a.len() as int));
        assert(b =~= (b + ".png"@).subrange(0, b.len() as int));
        lemma_dec_str_injective(t1 as nat, t2 as nat);
    }
}

} // verus!
