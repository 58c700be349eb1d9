//! How many tokens a request takes.

use crate::json::{field_is, field_of, json_text, json_views, lemma_array_view, Json, JsonView};
use crate::llm::transport::{
    compose_messages, convert_tools_to_openai, openai_tool, request_messages,
};
use crate::text::{digits_value, is_digits, parse_digits};
use vstd::prelude::*;
use vstd::utf8::encode_utf8;

verus! {

/// The tokens that an image takes apart from its tiles.
pub const IMAGE_BASE_TOKENS: u64 = 85;

/// The tokens that a tile of an image takes.
pub const IMAGE_TILE_TOKENS: u64 = 170;

/// The length of the side of a tile, in pixels.
pub const IMAGE_TILE_SIDE: u64 = 512;

/// The length of a side of an image, or that of one tile where it is not known.
pub open spec fn side_of(value: Option<JsonView>) -> nat {
    match value {
        Some(JsonView::Number(n)) if is_digits(n) && digits_value(n) <= u32::MAX => digits_value(n),
        _ => IMAGE_TILE_SIDE as nat,
    }
}

/// How many tiles cover a side.
pub open spec fn tiles(side: nat) -> nat {
    (side + IMAGE_TILE_SIDE - 1) as nat / IMAGE_TILE_SIDE as nat
}

/// The tokens that a block takes for the pixels of its image.
pub open spec fn block_image_tokens(block: JsonView) -> nat {
    if field_is(block, "type"@, "tool_attachment"@) {
        IMAGE_BASE_TOKENS as nat + IMAGE_TILE_TOKENS as nat * (tiles(
            side_of(field_of(block, "width"@)),
        ) * tiles(side_of(field_of(block, "height"@))))
    } else {
        0
    }
}

/// The tokens that the first `n` blocks take for the pixels of their images.
pub open spec fn blocks_image_tokens(blocks: Seq<JsonView>, n: nat) -> nat
    decreases n,
{
    if n == 0 {
        0
    } else {
        blocks_image_tokens(blocks, (n - 1) as nat) + block_image_tokens(blocks[n - 1])
    }
}

/// The tokens that a message takes for the pixels of its images.
pub open spec fn message_image_tokens(message: JsonView) -> nat {
    match field_of(message, "content"@) {
        Some(JsonView::Array(blocks)) => blocks_image_tokens(blocks, blocks.len()),
        _ => 0,
    }
}

/// The tokens that the first `n` messages take for the pixels of their images.
pub open spec fn image_tokens(messages: Seq<JsonView>, n: nat) -> nat
    decreases n,
{
    if n == 0 {
        0
    } else {
        image_tokens(messages, (n - 1) as nat) + message_image_tokens(messages[n - 1])
    }
}

/// `n`, or the greatest length where it is greater.
pub open spec fn capped(n: nat) -> nat {
    if n <= usize::MAX {
        n
    } else {
        usize::MAX as nat
    }
}

/// The bytes of a value as JSON text.
pub open spec fn json_bytes(value: JsonView) -> nat {
    encode_utf8(json_text(value)).len()
}

/// How many tokens a request takes: one for every three bytes of its messages and its tools, and
/// those for the pixels of its images.
pub open spec fn context_tokens(
    messages: Seq<JsonView>,
    tools: Seq<JsonView>,
    system_prompt: Seq<char>,
) -> nat {
    let bytes = capped(
        json_bytes(JsonView::Array(request_messages(messages, system_prompt))) + json_bytes(
            JsonView::Array(tools.map_values(|t: JsonView| openai_tool(t))),
        ),
    );
    capped((bytes + 2) / 3 + image_tokens(messages, messages.len()))
}

fn capped_sum(a: usize, b: usize) -> (r: usize)
    ensures
        r == capped((a + b) as nat),
{
    if b <= usize::MAX - a {
        a + b
    } else {
        usize::MAX
    }
}

fn read_side(value: Option<&Json>) -> (r: u64)
    ensures
        r == side_of(
            match value {
                Some(v) => Some(v@),
                None => None,
            },
        ),
        r <= u32::MAX,
{
    match value {
        Some(Json::Number(n)) => match parse_digits(n.as_str()) {
            Some(side) => if side <= u32::MAX as u64 {
                side
            } else {
                IMAGE_TILE_SIDE
            },
            None => IMAGE_TILE_SIDE,
        },
        _ => IMAGE_TILE_SIDE,
    }
}

fn count_tiles(side: u64) -> (r: u64)
    requires
        side <= u32::MAX,
    ensures
        r == tiles(side as nat),
        r <= 0x80_0000,
{
    (side + IMAGE_TILE_SIDE - 1) / IMAGE_TILE_SIDE
}

fn count_block(block: &Json) -> (r: usize)
    ensures
        r == capped(block_image_tokens(block@)),
{
    if !block.field_is("type", "tool_attachment") {
        return 0;
    }
    let across: u64 = count_tiles(read_side(block.get("width")));
    let down: u64 = count_tiles(read_side(block.get("height")));
    assert(0 <= across * down <= 0x4000_0000_0000) by (nonlinear_arith)
        requires
            0 <= across <= 0x80_0000,
            0 <= down <= 0x80_0000,
    ;
    let total: u64 = IMAGE_BASE_TOKENS + IMAGE_TILE_TOKENS * (across * down);
    let wide: u128 = total as u128;
    let most: u128 = usize::MAX as u128;
    if wide <= most {
        total as usize
    } else {
        usize::MAX
    }
}

fn count_message(message: &Json) -> (r: usize)
    ensures
        r == capped(message_image_tokens(message@)),
{
    match message.get("content") {
        Some(Json::Array(blocks)) => {
            proof {
                lemma_array_view(*blocks);
            }
            let ghost all = json_views(blocks@);
            let mut total: usize = 0;
            let mut i: usize = 0;
            while i < blocks.len()
                invariant
                    i <= blocks@.len(),
                    all == json_views(blocks@),
                    total == capped(blocks_image_tokens(all, i as nat)),
                decreases blocks@.len() - i,
            {
                assert(all[i as int] == blocks@[i as int]@);
                total = capped_sum(total, count_block(&blocks[i]));
                i += 1;
            }
            total
        },
        _ => 0,
    }
}

fn count_images(messages: &Vec<Json>) -> (r: usize)
    ensures
        r == capped(image_tokens(json_views(messages@), messages@.len())),
{
    let ghost all = json_views(messages@);
    let mut total: usize = 0;
    let mut i: usize = 0;
    while i < messages.len()
        invariant
            i <= messages@.len(),
            all == json_views(messages@),
            total == capped(image_tokens(all, i as nat)),
        decreases messages@.len() - i,
    {
        assert(all[i as int] == messages@[i as int]@);
        total = capped_sum(total, count_message(&messages[i]));
        i += 1;
    }
    total
}

fn count_bytes(items: Vec<Json>) -> (r: usize)
    ensures
        r == json_bytes(JsonView::Array(json_views(items@))),
{
    proof {
        lemma_array_view(items);
    }
    let value: Json = Json::Array(items);
    let text: String = value.to_text();
    text.as_str().as_bytes().len()
}

/// How many tokens a request takes.
pub fn estimate_openai_context_tokens(
    messages: &Vec<Json>,
    tools: &Vec<Json>,
    system_prompt: &str,
) -> (r: usize)
    ensures
        r == context_tokens(json_views(messages@), json_views(tools@), system_prompt@),
{
    let sent: usize = count_bytes(compose_messages(messages, system_prompt));
    let offered: usize = count_bytes(convert_tools_to_openai(tools));
    let bytes: usize = capped_sum(sent, offered);
    let mut tokens: usize = bytes / 3;
    if bytes % 3 != 0 {
        tokens += 1;
    }
    capped_sum(tokens, count_images(messages))
}

/// An image of a message is counted: a message with one more block takes at least as many tokens
/// for its images, by just those that the block takes.
pub proof fn image_block_is_counted(blocks: Seq<JsonView>, block: JsonView)
    ensures
        blocks_image_tokens(blocks.push(block), blocks.len() + 1) == blocks_image_tokens(
            blocks,
            blocks.len(),
        ) + block_image_tokens(block),
{
    lemma_prefix_tokens(blocks, block, blocks.len());
}

proof fn lemma_prefix_tokens(blocks: Seq<JsonView>, block: JsonView, n: nat)
    requires
        n <= blocks.len(),
    ensures
        blocks_image_tokens(blocks.push(block), n) == blocks_image_tokens(blocks, n),
    decreases n,
{
    if n > 0 {
        lemma_prefix_tokens(blocks, block, (n - 1) as nat);
    }
}

} // verus!
