//! The renderer: the front of a backend, and the place where command buffers
//! come together.
//!
//! Commands carry a sort key. The order in which they reach the GPU is the
//! ascending order of their keys, whatever the order in which they were
//! recorded or their buffers submitted; commands with equal keys keep the
//! order in which they came.

use crate::flags::{Format, ImageUsageFlags};
use crate::image::{Dimensions, MipmapsCount};
use vstd::prelude::*;

verus! {

/// Where a resource's memory lives.
#[derive(Copy, Clone, Debug)]
pub enum MemoryType {
    DeviceLocal,
    HostUpload,
    HostReadback,
}

/// The kinds of queue that a backend offers.
#[derive(Copy, Clone, Debug)]
pub enum Queue {
    Graphics,
    Compute,
    Transfer,
}

/// A set of shader stages, one bit per stage.
pub type ShaderStageFlags = u32;

pub const SHADER_STAGE_VERTEX: u32 = 0x01;

pub const SHADER_STAGE_GEOMETRY: u32 = 0x02;

pub const SHADER_STAGE_FRAGMENT: u32 = 0x04;

pub const SHADER_STAGE_TESS_CONTROL: u32 = 0x08;

pub const SHADER_STAGE_TESS_EVAL: u32 = 0x10;

pub const SHADER_STAGE_COMPUTE: u32 = 0x20;

/// The kinds of resource that a shader can be given.
#[derive(Clone, Copy, Debug, PartialEq, Eq, Structural)]
pub enum DescriptorType {
    Sampler,
    SampledImage,
    StorageImage,
    UniformBuffer,
    StorageBuffer,
    InputAttachment,
}

/// One binding of a descriptor set layout.
#[derive(Clone, Copy, Debug, PartialEq, Eq, Structural)]
pub struct LayoutBinding {
    pub descriptor_type: DescriptorType,
    pub stage_flags: ShaderStageFlags,
    pub count: usize,
}

/// How texels are picked between texel centres.
#[derive(Clone, Copy, Debug, PartialEq, Eq, Structural)]
pub enum Filter {
    Nearest,
    Linear,
}

/// How texture coordinates outside the image are treated.
#[derive(Clone, Copy, Debug, PartialEq, Eq, Structural)]
pub enum SamplerAddressMode {
    Clamp,
    Mirror,
    Wrap,
}

/// How an image is sampled.
#[derive(Clone, Copy, Debug, PartialEq, Eq, Structural)]
pub struct SamplerDesc {
    pub addr_u: SamplerAddressMode,
    pub addr_v: SamplerAddressMode,
    pub addr_w: SamplerAddressMode,
    pub min_filter: Filter,
    pub mag_filter: Filter,
}

/// A part of a buffer.
pub struct BufferSlice<Handle> {
    pub buffer: Handle,
    pub offset: usize,
    pub size: usize,
}

/// The shaders of a graphics pipeline, one binary per stage.
pub struct GraphicsShaderPipeline<'a> {
    pub vertex: &'a [u8],
    pub geometry: Option<&'a [u8]>,
    pub fragment: &'a [u8],
    pub tess_eval: Option<&'a [u8]>,
    pub tess_control: Option<&'a [u8]>,
}

/// A resource bound to a descriptor set.
pub enum Descriptor<R: RendererBackend> {
    SampledImage { img: R::ImageHandle, sampler: SamplerDesc },
    UniformBuffer { buffer: BufferSlice<R::BufferHandle> },
}

/// What a command does.
pub enum CommandInner<R: RendererBackend> {
    PipelineBarrier,
    /// Clears an image to a colour, given as the bit patterns of four floats.
    ClearImageFloat { image: R::ImageHandle, color: [u32; 4] },
    /// Clears a depth-stencil image to a depth, given as the bit pattern of a
    /// float, and to a stencil value if there is one.
    ClearDepthStencilImage { image: R::ImageHandle, depth: u32, stencil: Option<u8> },
    SetDescriptorSets { descriptor_sets: Vec<R::DescriptorSetHandle> },
    SetVertexBuffers { vertex_buffers: Vec<R::BufferHandle> },
    SetIndexBuffer { index_buffer: R::BufferHandle, offset: usize },
    DrawHeader { pipeline: R::GraphicsPipelineHandle },
    Draw { vertex_count: u32, instance_count: u32, first_vertex: u32, first_instance: u32 },
    DrawIndexed {
        index_count: u32,
        instance_count: u32,
        first_index: u32,
        vertex_offset: i32,
        first_instance: u32,
    },
    Present { image: R::ImageHandle, swapchain: R::SwapchainHandle },
}

/// A command and the key that places it in the frame.
pub struct Command<R: RendererBackend> {
    pub sort_key: u64,
    pub cmd: CommandInner<R>,
}

/// What a backend offers to the renderer.
pub trait RendererBackend: Sync + Sized {
    type SwapchainHandle: Copy;

    type BufferHandle: Copy;

    type ImageHandle: Copy;

    type DescriptorSetHandle: Copy;

    type DescriptorSetLayoutHandle: Copy;

    type GraphicsPipelineHandle: Copy;

    fn create_swapchain(&self) -> Self::SwapchainHandle;

    fn default_swapchain(&self) -> Option<Self::SwapchainHandle>;

    fn swapchain_dimensions(&self, swapchain: Self::SwapchainHandle) -> (u32, u32);

    fn create_image(
        &self,
        format: Format,
        dimensions: &Dimensions,
        mipcount: MipmapsCount,
        samples: u32,
        usage: ImageUsageFlags,
        initial_data: Option<&[u8]>,
    ) -> Self::ImageHandle;

    fn upload_transient(&self, data: &[u8]) -> BufferSlice<Self::BufferHandle>;

    fn destroy_image(&self, image: Self::ImageHandle);

    fn create_buffer(&self, size: u64) -> Self::BufferHandle;

    fn destroy_buffer(&self, buffer: Self::BufferHandle);

    /// Takes the commands of a frame, in the order in which they are to be
    /// executed.
    fn submit_frame(&self, commands: &Vec<Command<Self>>);

    fn create_graphics_pipeline(&self, shaders: &GraphicsShaderPipeline) -> Self::GraphicsPipelineHandle;

    fn create_descriptor_set_layout(&self, bindings: &[LayoutBinding]) -> Self::DescriptorSetLayoutHandle;

    fn create_descriptor_set(
        &self,
        layout: Self::DescriptorSetLayoutHandle,
        resources: &[Descriptor<Self>],
    ) -> Self::DescriptorSetHandle;
}

/// The parts of a sort key, from the most significant to the least: the
/// sequence of the frame that the command belongs to (3 bits), the layer
/// within the sequence (8 bits), the depth within the layer (16 bits) and the
/// pass within the depth (4 bits).
#[derive(Clone, Copy, Debug, PartialEq, Eq, Structural)]
pub struct SortKey {
    pub sequence: u8,
    pub layer: u8,
    pub depth: u16,
    pub pass: u8,
}

/// Whether each part of a key fits the bits it has.
pub open spec fn key_fits(key: SortKey) -> bool {
    key.sequence < 8 && key.pass < 16
}

/// The number that a key packs to.
pub open spec fn packed(key: SortKey) -> int {
    ((key.sequence * 256 + key.layer) * 65536 + key.depth) * 16 + key.pass
}

/// Whether `a` comes before `b` part by part: by sequence, then by layer,
/// then by depth, then by pass.
pub open spec fn key_before(a: SortKey, b: SortKey) -> bool {
    a.sequence < b.sequence || (a.sequence == b.sequence && (a.layer < b.layer || (a.layer
        == b.layer && (a.depth < b.depth || (a.depth == b.depth && a.pass < b.pass)))))
}

/// Packed keys fit 31 bits and compare as their parts do, and distinct keys
/// pack to distinct numbers.
pub proof fn lemma_packed_order(a: SortKey, b: SortKey)
    requires
        key_fits(a),
        key_fits(b),
    ensures
        0 <= packed(a) < 0x8000_0000,
        packed(a) < packed(b) <==> key_before(a, b),
        packed(a) == packed(b) <==> a == b,
{
    let high_a: int = a.sequence * 256 + a.layer;
    let high_b: int = b.sequence * 256 + b.layer;
    let middle_a: int = high_a * 65536 + a.depth;
    let middle_b: int = high_b * 65536 + b.depth;
    assert(packed(a) == middle_a * 16 + a.pass);
    assert(packed(b) == middle_b * 16 + b.pass);
    assert(high_a < high_b <==> (a.sequence < b.sequence || (a.sequence == b.sequence && a.layer
        < b.layer)));
    assert(high_a == high_b <==> (a.sequence == b.sequence && a.layer == b.layer));
    assert(middle_a < middle_b <==> (high_a < high_b || (high_a == high_b && a.depth < b.depth)));
    assert(middle_a == middle_b <==> (high_a == high_b && a.depth == b.depth));
    assert(packed(a) < packed(b) <==> (middle_a < middle_b || (middle_a == middle_b && a.pass
        < b.pass)));
    assert(packed(a) == packed(b) <==> (middle_a == middle_b && a.pass == b.pass));
}

/// Packs the parts of a sort key into one number, the sequence in the most
/// significant bits. A part that does not fit its bits makes no key.
pub fn pack_sort_key(key: SortKey) -> (number: Option<u64>)
    ensures
        match number {
            Some(number) => key_fits(key) && number == packed(key),
            None => !key_fits(key),
        },
{
    if key.sequence >= 8 || key.pass >= 16 {
        return None;
    }
    let high: u64 = key.sequence as u64 * 256 + key.layer as u64;
    let middle: u64 = high * 65536 + key.depth as u64;
    Some(middle * 16 + key.pass as u64)
}

/// The sort keys of a sequence of commands.
pub open spec fn keys_of<R: RendererBackend>(commands: Seq<Command<R>>) -> Seq<u64> {
    commands.map_values(|c: Command<R>| c.sort_key)
}

/// Whether a sequence of keys never falls.
pub open spec fn is_ascending(keys: Seq<u64>) -> bool {
    forall|i: int, j: int| 0 <= i < j < keys.len() ==> keys[i] <= keys[j]
}

/// Where a command with key `key` enters a stream with keys `keys`: behind
/// every command whose key is not above its own, and so behind any command
/// with the same key.
pub open spec fn insertion_point(keys: Seq<u64>, key: u64) -> int
    decreases keys.len(),
{
    if keys.len() == 0 || keys.last() <= key {
        keys.len() as int
    } else {
        insertion_point(keys.drop_last(), key)
    }
}

/// `stream` with `command` entered at its place.
pub open spec fn with_command<R: RendererBackend>(stream: Seq<Command<R>>, command: Command<R>) -> Seq<
    Command<R>,
> {
    stream.insert(insertion_point(keys_of(stream), command.sort_key), command)
}

/// The commands in the order in which they are executed: each entered at its
/// place among those that came before it.
pub open spec fn in_key_order<R: RendererBackend>(commands: Seq<Command<R>>) -> Seq<Command<R>>
    decreases commands.len(),
{
    if commands.len() == 0 {
        Seq::empty()
    } else {
        with_command(in_key_order(commands.drop_last()), commands.last())
    }
}

/// The test of whether a command carries the key `key`.
pub open spec fn has_key<R: RendererBackend>(key: u64) -> spec_fn(Command<R>) -> bool {
    |c: Command<R>| c.sort_key == key
}

/// The commands of `commands` that carry the key `key`, in their order.
pub open spec fn with_key<R: RendererBackend>(commands: Seq<Command<R>>, key: u64) -> Seq<Command<R>> {
    commands.filter(has_key(key))
}

/// The insertion point lies within the stream; every key before it is not
/// above `key`, and, in an ascending stream, every key from it on is.
pub proof fn lemma_insertion_point(keys: Seq<u64>, key: u64)
    ensures
        0 <= insertion_point(keys, key) <= keys.len(),
        insertion_point(keys, key) > 0 ==> keys[insertion_point(keys, key) - 1] <= key,
        forall|i: int| insertion_point(keys, key) <= i < keys.len() ==> keys[i] > key,
        is_ascending(keys) ==> forall|i: int| 0 <= i < insertion_point(keys, key) ==> keys[i] <= key,
    decreases keys.len(),
{
    if !(keys.len() == 0 || keys.last() <= key) {
        let rest = keys.drop_last();
        lemma_insertion_point(rest, key);
        assert forall|i: int| insertion_point(keys, key) <= i < keys.len() implies keys[i] > key by {
            if i < rest.len() {
                assert(rest[i] == keys[i]);
            }
        }
        if is_ascending(keys) {
            assert forall|i: int, j: int| 0 <= i < j < rest.len() implies rest[i] <= rest[j] by {
                assert(rest[i] == keys[i] && rest[j] == keys[j]);
            }
            assert forall|i: int| 0 <= i < insertion_point(keys, key) implies keys[i] <= key by {
                assert(rest[i] == keys[i]);
            }
        }
    } else if is_ascending(keys) {
        assert forall|i: int| 0 <= i < insertion_point(keys, key) implies keys[i] <= key by {
            assert(keys[i] <= keys[keys.len() - 1]);
        }
    }
}

/// Entering a command at its place keeps an ascending stream ascending.
pub proof fn lemma_with_command_ascends<R: RendererBackend>(stream: Seq<Command<R>>, command: Command<R>)
    requires
        is_ascending(keys_of(stream)),
    ensures
        is_ascending(keys_of(with_command(stream, command))),
{
    let keys = keys_of(stream);
    let at = insertion_point(keys, command.sort_key);
    lemma_insertion_point(keys, command.sort_key);
    let after = keys_of(with_command(stream, command));
    assert(after =~= keys.insert(at, command.sort_key));
    assert forall|i: int, j: int| 0 <= i < j < after.len() implies after[i] <= after[j] by {
        if j < at {
            assert(after[i] == keys[i] && after[j] == keys[j]);
        } else if j == at {
            assert(after[i] == keys[i]);
        } else if i < at {
            assert(after[i] == keys[i] && after[j] == keys[j - 1]);
            assert(keys[j - 1] > command.sort_key);
        } else if i == at {
            assert(after[j] == keys[j - 1]);
        } else {
            assert(after[i] == keys[i - 1] && after[j] == keys[j - 1]);
        }
    }
}

/// The execution order is ascending in the sort key.
pub proof fn lemma_key_order_ascends<R: RendererBackend>(commands: Seq<Command<R>>)
    ensures
        is_ascending(keys_of(in_key_order(commands))),
        in_key_order(commands).len() == commands.len(),
    decreases commands.len(),
{
    if commands.len() > 0 {
        lemma_key_order_ascends(commands.drop_last());
        lemma_insertion_point(keys_of(in_key_order(commands.drop_last())), commands.last().sort_key);
        lemma_with_command_ascends(in_key_order(commands.drop_last()), commands.last());
    }
}

/// The execution order holds the same commands, each as often as it was
/// recorded.
pub proof fn lemma_key_order_permutes<R: RendererBackend>(commands: Seq<Command<R>>)
    ensures
        in_key_order(commands).to_multiset() == commands.to_multiset(),
    decreases commands.len(),
{
    if commands.len() > 0 {
        let rest = commands.drop_last();
        let last = commands.last();
        let sorted = in_key_order(rest);
        lemma_key_order_permutes(rest);
        lemma_insertion_point(keys_of(sorted), last.sort_key);
        let at = insertion_point(keys_of(sorted), last.sort_key);
        vstd::seq_lib::to_multiset_insert(sorted, at, last);
        vstd::seq_lib::to_multiset_build(rest, last);
        assert(commands =~= rest.push(last));
    } else {
        assert(commands =~= Seq::<Command<R>>::empty());
    }
}

/// Commands with the same key are executed in the order in which they were
/// recorded: the commands that carry a key are the same sequence before and
/// after ordering.
pub proof fn lemma_key_order_is_stable<R: RendererBackend>(commands: Seq<Command<R>>, key: u64)
    ensures
        with_key(in_key_order(commands), key) == with_key(commands, key),
    decreases commands.len(),
{
    let pred = has_key::<R>(key);
    if commands.len() > 0 {
        let rest = commands.drop_last();
        let last = commands.last();
        let sorted = in_key_order(rest);
        lemma_key_order_is_stable(rest, key);
        lemma_key_order_ascends(rest);
        let keys = keys_of(sorted);
        lemma_insertion_point(keys, last.sort_key);
        let at = insertion_point(keys, last.sort_key);
        let front = sorted.subrange(0, at);
        let back = sorted.subrange(at, sorted.len() as int);
        assert(sorted =~= front + back);
        assert(with_command(sorted, last) =~= front.push(last) + back);
        Seq::filter_distributes_over_add(front, back, pred);
        Seq::filter_distributes_over_add(front.push(last), back, pred);
        front.lemma_filter_push(last, pred);
        rest.lemma_filter_push(last, pred);
        assert(commands =~= rest.push(last));
        if last.sort_key == key {
            assert forall|i: int| 0 <= i < back.len() implies !pred(#[trigger] back[i]) by {
                assert(back[i] == sorted[at + i]);
                assert(keys[at + i] > last.sort_key);
            }
            back.lemma_all_neg_filter_empty(pred);
            assert(back.filter(pred) =~= Seq::<Command<R>>::empty());
            assert(front.filter(pred) + back.filter(pred) =~= front.filter(pred));
            assert(front.filter(pred).push(last) + back.filter(pred) =~= front.filter(pred).push(last));
        }
    } else {
        assert(commands =~= Seq::<Command<R>>::empty());
    }
}

/// Whether no two commands carry the same key.
pub open spec fn distinct_keys<R: RendererBackend>(commands: Seq<Command<R>>) -> bool {
    forall|i: int, j: int|
        0 <= i < j < commands.len() ==> (#[trigger] commands[i]).sort_key != (
        #[trigger] commands[j]).sort_key
}

/// Sequences that hold the same commands as often hold the same commands.
proof fn lemma_same_commands<R: RendererBackend>(
    first: Seq<Command<R>>,
    second: Seq<Command<R>>,
    command: Command<R>,
)
    requires
        first.to_multiset() == second.to_multiset(),
    ensures
        first.contains(command) <==> second.contains(command),
{
    first.to_multiset_ensures();
    second.to_multiset_ensures();
    assert(first.contains(command) <==> first.to_multiset().count(command) > 0);
    assert(second.contains(command) <==> second.to_multiset().count(command) > 0);
}

/// The execution order holds a command exactly when it was recorded.
pub proof fn lemma_key_order_holds_what_came<R: RendererBackend>(
    commands: Seq<Command<R>>,
    command: Command<R>,
)
    ensures
        in_key_order(commands).contains(command) <==> commands.contains(command),
{
    lemma_key_order_permutes(commands);
    lemma_same_commands(in_key_order(commands), commands, command);
}

/// Commands with distinct keys have distinct keys in execution order too.
pub proof fn lemma_key_order_keeps_keys_distinct<R: RendererBackend>(commands: Seq<Command<R>>)
    requires
        distinct_keys(commands),
    ensures
        distinct_keys(in_key_order(commands)),
    decreases commands.len(),
{
    if commands.len() > 0 {
        let rest = commands.drop_last();
        let last = commands.last();
        let sorted = in_key_order(rest);
        assert forall|i: int, j: int| 0 <= i < j < rest.len() implies (#[trigger] rest[i]).sort_key != (
        #[trigger] rest[j]).sort_key by {
            assert(rest[i] == commands[i] && rest[j] == commands[j]);
        }
        lemma_key_order_keeps_keys_distinct(rest);
        lemma_insertion_point(keys_of(sorted), last.sort_key);
        let at = insertion_point(keys_of(sorted), last.sort_key);
        let after = sorted.insert(at, last);
        assert forall|i: int| 0 <= i < sorted.len() implies (#[trigger] sorted[i]).sort_key
            != last.sort_key by {
            assert(sorted.contains(sorted[i]));
            lemma_key_order_holds_what_came(rest, sorted[i]);
            let k = choose|k: int| 0 <= k < rest.len() && rest[k] == sorted[i];
            assert(commands[k] == rest[k]);
            assert(commands[k].sort_key != commands[commands.len() - 1].sort_key);
        }
        assert forall|i: int, j: int| 0 <= i < j < after.len() implies (#[trigger] after[i]).sort_key != (
        #[trigger] after[j]).sort_key by {
            let a = if i < at {
                i
            } else {
                i - 1
            };
            let b = if j < at {
                j
            } else {
                j - 1
            };
            if i == at {
                assert(after[j] == sorted[b]);
            } else if j == at {
                assert(after[i] == sorted[a]);
            } else {
                assert(after[i] == sorted[a] && after[j] == sorted[b]);
            }
        }
    }
}

/// The same commands have distinct keys in whatever order they come.
pub proof fn lemma_distinct_keys_in_any_order<R: RendererBackend>(
    first: Seq<Command<R>>,
    second: Seq<Command<R>>,
)
    requires
        first.to_multiset() == second.to_multiset(),
        distinct_keys(first),
    ensures
        distinct_keys(second),
{
    assert(first.no_duplicates());
    first.lemma_multiset_has_no_duplicates();
    second.lemma_multiset_has_no_duplicates_conv();
    first.to_multiset_ensures();
    second.to_multiset_ensures();
    assert forall|i: int, j: int| 0 <= i < j < second.len() implies (#[trigger] second[i]).sort_key != (
    #[trigger] second[j]).sort_key by {
        assert(second.contains(second[i]) && second.contains(second[j]));
        lemma_same_commands(first, second, second[i]);
        lemma_same_commands(first, second, second[j]);
        let p = choose|p: int| 0 <= p < first.len() && first[p] == second[i];
        let q = choose|q: int| 0 <= q < first.len() && first[q] == second[j];
        assert(second[i] != second[j]);
        if p < q {
            assert(first[p].sort_key != first[q].sort_key);
        } else if q < p {
            assert(first[q].sort_key != first[p].sort_key);
        }
    }
}

/// Two streams that ascend in the key, hold the same commands and have
/// distinct keys are the same stream.
pub proof fn lemma_ascending_stream_is_unique<R: RendererBackend>(
    first: Seq<Command<R>>,
    second: Seq<Command<R>>,
)
    requires
        first.to_multiset() == second.to_multiset(),
        is_ascending(keys_of(first)),
        is_ascending(keys_of(second)),
        distinct_keys(first),
        distinct_keys(second),
    ensures
        first == second,
    decreases first.len(),
{
    first.to_multiset_ensures();
    second.to_multiset_ensures();
    if first.len() == 0 {
        assert(first =~= second);
    } else {
        let end = first.len() - 1;
        let x = first[end];
        let y = second[end];
        assert(first.contains(x));
        assert(second.contains(y));
        lemma_same_commands(first, second, x);
        lemma_same_commands(first, second, y);
        let j = choose|j: int| 0 <= j < second.len() && second[j] == x;
        let i = choose|i: int| 0 <= i < first.len() && first[i] == y;
        assert(keys_of(first)[i] <= keys_of(first)[end]);
        assert(keys_of(second)[j] <= keys_of(second)[end]);
        assert(x.sort_key == y.sort_key);
        if j < end {
            assert(second[j].sort_key != second[end].sort_key);
        }
        assert(x == y);
        let front = first.drop_last();
        let back = second.drop_last();
        assert(first.remove(end) =~= front);
        assert(second.remove(end) =~= back);
        assert(front.to_multiset() == back.to_multiset());
        assert forall|a: int, b: int| 0 <= a < b < front.len() implies keys_of(front)[a] <= keys_of(
            front,
        )[b] by {
            assert(keys_of(front)[a] == keys_of(first)[a] && keys_of(front)[b] == keys_of(first)[b]);
        }
        assert forall|a: int, b: int| 0 <= a < b < back.len() implies keys_of(back)[a] <= keys_of(
            back,
        )[b] by {
            assert(keys_of(back)[a] == keys_of(second)[a] && keys_of(back)[b] == keys_of(second)[b]);
        }
        assert forall|a: int, b: int| 0 <= a < b < front.len() implies (#[trigger] front[a]).sort_key != (
        #[trigger] front[b]).sort_key by {
            assert(front[a] == first[a] && front[b] == first[b]);
        }
        assert forall|a: int, b: int| 0 <= a < b < back.len() implies (#[trigger] back[a]).sort_key != (
        #[trigger] back[b]).sort_key by {
            assert(back[a] == second[a] && back[b] == second[b]);
        }
        lemma_ascending_stream_is_unique(front, back);
        assert(first =~= front.push(x));
        assert(second =~= back.push(y));
    }
}

/// Where the keys are distinct, the order in which commands come has no
/// influence on the order in which they are executed: the same commands,
/// recorded or submitted in another order, give the same stream.
pub proof fn lemma_key_order_ignores_arrival<R: RendererBackend>(
    first: Seq<Command<R>>,
    second: Seq<Command<R>>,
)
    requires
        first.to_multiset() == second.to_multiset(),
        distinct_keys(first),
    ensures
        in_key_order(first) == in_key_order(second),
{
    lemma_distinct_keys_in_any_order(first, second);
    lemma_key_order_permutes(first);
    lemma_key_order_permutes(second);
    lemma_key_order_ascends(first);
    lemma_key_order_ascends(second);
    lemma_key_order_keeps_keys_distinct(first);
    lemma_key_order_keeps_keys_distinct(second);
    lemma_ascending_stream_is_unique(in_key_order(first), in_key_order(second));
}

/// Two command buffers with distinct keys give the same stream whichever is
/// submitted first.
pub proof fn lemma_submission_order_is_immaterial<R: RendererBackend>(
    one: Seq<Command<R>>,
    other: Seq<Command<R>>,
)
    requires
        distinct_keys(one + other),
    ensures
        in_key_order(one + other) == in_key_order(other + one),
{
    vstd::seq_lib::lemma_multiset_commutative(one, other);
    vstd::seq_lib::lemma_multiset_commutative(other, one);
    assert((one + other).to_multiset() =~= (other + one).to_multiset());
    lemma_key_order_ignores_arrival(one + other, other + one);
}

/// Commands that are recorded one by one, each with its key.
pub struct CommandBuffer<R: RendererBackend> {
    commands: Vec<Command<R>>,
}

impl<R: RendererBackend> View for CommandBuffer<R> {
    type V = Seq<Command<R>>;

    closed spec fn view(&self) -> Seq<Command<R>> {
        self.commands@
    }
}

impl<R: RendererBackend> CommandBuffer<R> {
    /// A buffer without commands.
    pub fn new() -> (buffer: CommandBuffer<R>)
        ensures
            buffer@.len() == 0,
    {
        CommandBuffer { commands: Vec::new() }
    }

    /// The number of commands recorded.
    pub fn len(&self) -> (n: usize)
        ensures
            n == self@.len(),
    {
        self.commands.len()
    }

    /// Records `cmd` with the key `sort_key`.
    pub fn push(&mut self, sort_key: u64, cmd: CommandInner<R>)
        ensures
            final(self)@ == old(self)@.push(Command { sort_key, cmd }),
    {
        self.commands.push(Command { sort_key, cmd });
    }

    /// Records the clearing of `image` to `color`, the bit patterns of four
    /// floats.
    pub fn clear_image(&mut self, sort_key: u64, image: R::ImageHandle, color: [u32; 4])
        ensures
            final(self)@ == old(self)@.push(
                Command { sort_key, cmd: CommandInner::ClearImageFloat { image, color } },
            ),
    {
        self.push(sort_key, CommandInner::ClearImageFloat { image, color });
    }

    /// Records a draw of `vertex_count` vertices and `instance_count`
    /// instances with the pipeline and state that are current.
    pub fn draw(
        &mut self,
        sort_key: u64,
        vertex_count: u32,
        instance_count: u32,
        first_vertex: u32,
        first_instance: u32,
    )
        ensures
            final(self)@ == old(self)@.push(
                Command {
                    sort_key,
                    cmd: CommandInner::Draw {
                        vertex_count,
                        instance_count,
                        first_vertex,
                        first_instance,
                    },
                },
            ),
    {
        self.push(
            sort_key,
            CommandInner::Draw { vertex_count, instance_count, first_vertex, first_instance },
        );
    }

    /// Records the presentation of `image` to `swapchain`.
    pub fn present(&mut self, sort_key: u64, image: R::ImageHandle, swapchain: R::SwapchainHandle)
        ensures
            final(self)@ == old(self)@.push(
                Command { sort_key, cmd: CommandInner::Present { image, swapchain } },
            ),
    {
        self.push(sort_key, CommandInner::Present { image, swapchain });
    }
}

/// Enters `command` into `stream` at its place: behind every command whose
/// key is not above its own.
pub fn insert_command<R: RendererBackend>(stream: &mut Vec<Command<R>>, command: Command<R>)
    ensures
        final(stream)@ == with_command(old(stream)@, command),
{
    let ghost keys = keys_of(stream@);
    let mut at: usize = stream.len();
    assert(keys.take(at as int) =~= keys);
    while at > 0 && stream[at - 1].sort_key > command.sort_key
        invariant
            at <= stream.len(),
            keys == keys_of(stream@),
            stream@ == old(stream)@,
            insertion_point(keys, command.sort_key) == insertion_point(
                keys.take(at as int),
                command.sort_key,
            ),
        decreases at,
    {
        assert(keys.take(at as int).drop_last() =~= keys.take(at - 1));
        at = at - 1;
    }
    assert(insertion_point(keys.take(at as int), command.sort_key) == at);
    stream.insert(at, command);
}

/// Brings commands into the order in which they are executed: ascending in
/// the sort key, commands with the same key in the order in which they came.
///
/// Each command is entered from the back of the stream, so commands that
/// come in ascending order already are placed at once.
pub fn sort_commands<R: RendererBackend>(commands: Vec<Command<R>>) -> (stream: Vec<Command<R>>)
    ensures
        stream@ == in_key_order(commands@),
{
    let ghost all = commands@;
    let mut stream: Vec<Command<R>> = Vec::new();
    assert(all.take(0) =~= Seq::<Command<R>>::empty());
    for command in it: commands
        invariant
            it.seq() == all,
            stream@ == in_key_order(all.take(it.index() as int)),
    {
        assert(all.take(it.index() + 1).drop_last() =~= all.take(it.index() as int));
        insert_command(&mut stream, command);
    }
    assert(all.take(all.len() as int) =~= all);
    stream
}

/// The commands submitted in a frame so far: those of the buffer submitted
/// first, then those of the second, and so on. This is the one part of a
/// renderer that changes as threads hand their buffers in, so it is the part
/// to guard where threads share a renderer.
pub struct FrameCommands<R: RendererBackend> {
    commands: Vec<Command<R>>,
}

impl<R: RendererBackend> View for FrameCommands<R> {
    type V = Seq<Command<R>>;

    closed spec fn view(&self) -> Seq<Command<R>> {
        self.commands@
    }
}

impl<R: RendererBackend> FrameCommands<R> {
    /// No commands.
    pub fn new() -> (commands: FrameCommands<R>)
        ensures
            commands@.len() == 0,
    {
        FrameCommands { commands: Vec::new() }
    }

    /// Submits a command buffer: its commands join those of the frame, behind
    /// the commands of the buffers submitted before.
    pub fn submit(&mut self, cmdbuf: CommandBuffer<R>)
        ensures
            final(self)@ == old(self)@ + cmdbuf@,
    {
        let mut cmdbuf = cmdbuf;
        self.commands.append(&mut cmdbuf.commands);
    }

    /// Ends the frame: brings the commands into the order in which they are
    /// to be executed, hands them to `backend` in that order, and starts
    /// another frame with nothing submitted. Returns the commands as they
    /// were handed over.
    pub fn end_frame(&mut self, backend: &R) -> (stream: Vec<Command<R>>)
        ensures
            final(self)@.len() == 0,
            stream@ == in_key_order(old(self)@),
            call_ensures(R::submit_frame, (backend, &stream), ()),
    {
        let mut commands: Vec<Command<R>> = Vec::new();
        core::mem::swap(&mut self.commands, &mut commands);
        let stream = sort_commands(commands);
        backend.submit_frame(&stream);
        stream
    }
}

/// The front of a backend. Resources are created through it, and the command
/// buffers of a frame are submitted to it.
pub struct Renderer<R: RendererBackend> {
    backend: R,
    cmdbufs: FrameCommands<R>,
}

impl<R: RendererBackend> Renderer<R> {
    /// The backend of the renderer.
    pub closed spec fn backend(&self) -> R {
        self.backend
    }

    /// The commands submitted in the frame so far: those of the buffer
    /// submitted first, then those of the second, and so on.
    pub closed spec fn submitted(&self) -> Seq<Command<R>> {
        self.cmdbufs@
    }

    /// A renderer on `backend`, with nothing submitted.
    pub fn new(backend: R) -> (renderer: Renderer<R>)
        ensures
            renderer.backend() == backend,
            renderer.submitted().len() == 0,
    {
        Renderer { backend, cmdbufs: FrameCommands::new() }
    }

    /// Creates a swapchain: asks the backend for one, and returns what the
    /// backend answers.
    pub fn create_swapchain(&self) -> (swapchain: R::SwapchainHandle)
        ensures
            call_ensures(R::create_swapchain, (&self.backend(),), swapchain),
    {
        self.backend.create_swapchain()
    }

    /// The default swapchain, if the backend has one: what the backend
    /// answers when asked for it.
    pub fn default_swapchain(&self) -> (swapchain: Option<R::SwapchainHandle>)
        ensures
            call_ensures(R::default_swapchain, (&self.backend(),), swapchain),
    {
        self.backend.default_swapchain()
    }

    /// The width and height of a swapchain: what the backend answers when
    /// asked for those of `swapchain`.
    pub fn swapchain_dimensions(&self, swapchain: R::SwapchainHandle) -> (dimensions: (u32, u32))
        ensures
            call_ensures(R::swapchain_dimensions, (&self.backend(), swapchain), dimensions),
    {
        self.backend.swapchain_dimensions(swapchain)
    }

    /// A command buffer without commands.
    pub fn create_command_buffer(&self) -> (buffer: CommandBuffer<R>)
        ensures
            buffer@.len() == 0,
    {
        CommandBuffer::new()
    }

    /// Creates a graphics pipeline from the shaders of its stages: hands
    /// `shaders` to the backend, and returns the pipeline that the backend
    /// answers with.
    pub fn create_graphics_pipeline(&self, shaders: &GraphicsShaderPipeline) -> (pipeline:
        R::GraphicsPipelineHandle)
        ensures
            call_ensures(R::create_graphics_pipeline, (&self.backend(), shaders), pipeline),
    {
        self.backend.create_graphics_pipeline(shaders)
    }

    /// Creates an image: hands the description of the image and its initial
    /// data to the backend as they are given, and returns the image that the
    /// backend answers with. The initial data, if any, is visible to every
    /// operation of the current frame and of later ones.
    pub fn create_image(
        &self,
        format: Format,
        dimensions: Dimensions,
        mipcount: MipmapsCount,
        samples: u32,
        usage: ImageUsageFlags,
        initial_data: Option<&[u8]>,
    ) -> (image: R::ImageHandle)
        ensures
            call_ensures(
                R::create_image,
                (&self.backend(), format, &dimensions, mipcount, samples, usage, initial_data),
                image,
            ),
    {
        self.backend.create_image(format, &dimensions, mipcount, samples, usage, initial_data)
    }

    /// Uploads data to a buffer that lives until the end of the frame: hands
    /// `data` to the backend, and returns the part of a buffer that the
    /// backend answers with.
    pub fn upload_transient(&self, data: &[u8]) -> (slice: BufferSlice<R::BufferHandle>)
        ensures
            call_ensures(R::upload_transient, (&self.backend(), data), slice),
    {
        self.backend.upload_transient(data)
    }

    /// Gives up an image: hands `image` to the backend to destroy. The
    /// backend destroys it once the GPU is done with it.
    pub fn destroy_image(&self, image: R::ImageHandle)
        ensures
            call_ensures(R::destroy_image, (&self.backend(), image), ()),
    {
        self.backend.destroy_image(image)
    }

    /// Creates a buffer of `size` bytes in device memory: asks the backend
    /// for a buffer of that size, and returns the buffer that the backend
    /// answers with.
    pub fn create_buffer(&self, size: u64) -> (buffer: R::BufferHandle)
        ensures
            call_ensures(R::create_buffer, (&self.backend(), size), buffer),
    {
        self.backend.create_buffer(size)
    }

    /// Gives up a buffer: hands `buffer` to the backend to destroy. The
    /// backend destroys it once the GPU is done with it.
    pub fn destroy_buffer(&self, buffer: R::BufferHandle)
        ensures
            call_ensures(R::destroy_buffer, (&self.backend(), buffer), ()),
    {
        self.backend.destroy_buffer(buffer)
    }

    /// Submits a command buffer: its commands join those of the frame, behind
    /// the commands of the buffers submitted before.
    pub fn submit_command_buffer(&mut self, cmdbuf: CommandBuffer<R>)
        ensures
            final(self).backend() == old(self).backend(),
            final(self).submitted() == old(self).submitted() + cmdbuf@,
    {
        self.cmdbufs.submit(cmdbuf);
    }

    /// Ends the frame: hands the backend the commands of the frame in the
    /// order in which they are to be executed, and starts another frame with
    /// nothing submitted. Returns the commands as they were handed over.
    ///
    /// The order is ascending in the sort key, whatever the order in which
    /// the commands were recorded or their buffers submitted. Commands with
    /// the same key stay in the order in which they came.
    pub fn end_frame(&mut self) -> (stream: Vec<Command<R>>)
        ensures
            final(self).backend() == old(self).backend(),
            final(self).submitted().len() == 0,
            stream@ == in_key_order(old(self).submitted()),
            call_ensures(R::submit_frame, (&old(self).backend(), &stream), ()),
    {
        self.cmdbufs.end_frame(&self.backend)
    }
}

} // verus!
