//! The software rendering backend: a framebuffer, atlas textures and
//! buffers kept in memory under numeric handles.

use vstd::prelude::*;
use std::collections::HashMap;
use crate::render::{AtlasTexture, BackendConfig, BackendType, Buffer, IndexBuffer, UniformBuffer, VertexBuffer};
use crate::render_error::RendererError;

verus! {

broadcast use vstd::std_specs::hash::group_hash_axioms;

/// An atlas texture: one byte per texel, row after row.
struct CpuTexture {
    width: u32,
    _height: u32,
    data: Vec<u8>,
}

/// A buffer's bytes.
pub struct CpuBuffer {
    data: Vec<u8>,
    id: u64,
}

impl CpuBuffer {
    /// The bytes the buffer holds.
    pub closed spec fn bytes(&self) -> Seq<u8> {
        self.data@
    }

    /// The buffer's identifier.
    pub closed spec fn handle(&self) -> u64 {
        self.id
    }
}

impl Buffer for CpuBuffer {
    fn size(&self) -> (n: u64)
        ensures
            n == self.bytes().len(),
    {
        self.data.len() as u64
    }

    fn id(&self) -> (i: u64)
        ensures
            i == self.handle(),
    {
        self.id
    }
}

/// Mathematical picture of a texture: width, height and texels.
pub struct TextureView {
    pub width: u32,
    pub height: u32,
    pub data: Seq<u8>,
}

/// Mathematical picture of a [`CpuBackend`].
pub struct CpuBackendView {
    pub config: BackendConfig,
    pub framebuffer: Seq<u8>,
    pub width: u32,
    pub height: u32,
    pub textures: Map<u64, TextureView>,
    pub buffers: Map<u64, Seq<u8>>,
    pub next_id: u64,
}

impl CpuBackendView {
    /// Every texture and buffer has a handle below the next one.
    pub open spec fn wf(self) -> bool {
        &&& forall|id: u64| #[trigger] self.textures.contains_key(id) ==> id < self.next_id
        &&& forall|id: u64| #[trigger] self.buffers.contains_key(id) ==> id < self.next_id
    }
}

/// `n` zero bytes.
pub open spec fn zeros(n: nat) -> Seq<u8> {
    Seq::new(n, |i: int| 0u8)
}

/// Offset in the texture of row `row` of a `width`-texel-wide image put
/// at `(x, y)` in a texture `tex_width` texels wide.
pub open spec fn dst_start(tex_width: u32, x: u32, y: u32, row: u32) -> int {
    (y + row) * tex_width + x
}

/// Copying a `width` x `height` image from `src` to `(x, y)` of a texture
/// `tex_width` texels wide holding `tex_len` bytes stays within `u32`
/// arithmetic and reads `src` only in range (rows that would leave the
/// texture are skipped).
pub open spec fn blit_ok(tex_width: u32, tex_len: nat, x: u32, y: u32, width: u32, height: u32, src_len: nat) -> bool {
    forall|row: u32|
        row < height ==> {
            &&& row * width <= u32::MAX
            &&& y + row <= u32::MAX
            &&& #[trigger] dst_start(tex_width, x, y, row) <= u32::MAX
            &&& dst_start(tex_width, x, y, row) + width <= tex_len ==> row * width + width <= src_len
        }
}

/// `data` with the first `rows` rows of the image `src` copied in, each
/// row that fits in the texture written over the bytes it lands on.
pub open spec fn blit(data: Seq<u8>, tex_width: u32, x: u32, y: u32, width: u32, src: Seq<u8>, rows: nat) -> Seq<u8>
    decreases rows,
{
    if rows == 0 {
        data
    } else {
        let before = blit(data, tex_width, x, y, width, src, (rows - 1) as nat);
        let row = (rows - 1) as u32;
        let d = dst_start(tex_width, x, y, row);
        if d + width <= before.len() {
            let s = row * width;
            before.take(d) + src.subrange(s, s + width) + before.skip(d + width)
        } else {
            before
        }
    }
}

/// The software backend.
pub struct CpuBackend {
    config: BackendConfig,
    framebuffer: Vec<u8>,
    width: u32,
    height: u32,
    textures: HashMap<u64, CpuTexture>,
    buffers: HashMap<u64, CpuBuffer>,
    next_id: u64,
}

impl View for CpuBackend {
    type V = CpuBackendView;

    closed spec fn view(&self) -> CpuBackendView {
        CpuBackendView {
            config: self.config,
            framebuffer: self.framebuffer@,
            width: self.width,
            height: self.height,
            textures: self.textures@.map_values(
                |t: CpuTexture| TextureView { width: t.width, height: t._height, data: t.data@ },
            ),
            buffers: self.buffers@.map_values(|b: CpuBuffer| b.data@),
            next_id: self.next_id,
        }
    }
}

/// A vector of `n` zero bytes.
fn zero_bytes(n: usize) -> (v: Vec<u8>)
    ensures
        v@ == zeros(n as nat),
{
    let mut v: Vec<u8> = Vec::new();
    let mut i: usize = 0;
    while i < n
        invariant
            i <= n,
            v@ == zeros(i as nat),
        decreases n - i,
    {
        v.push(0);
        i += 1;
        proof {
            assert(v@ =~= zeros(i as nat));
        }
    }
    v
}

/// A vector holding the bytes of `data`.
fn copy_bytes(data: &[u8]) -> (v: Vec<u8>)
    ensures
        v@ == data@,
{
    let mut v: Vec<u8> = Vec::new();
    let mut i: usize = 0;
    while i < data.len()
        invariant
            i <= data@.len(),
            v@ == data@.take(i as int),
        decreases data@.len() - i,
    {
        v.push(data[i]);
        i += 1;
        proof {
            assert(v@ =~= data@.take(i as int));
        }
    }
    proof {
        assert(data@.take(data@.len() as int) =~= data@);
    }
    v
}

/// Writes `src[from..from + count]` over `dst[at..at + count]`.
fn copy_into(dst: &mut Vec<u8>, at: usize, src: &[u8], from: usize, count: usize)
    requires
        at + count <= old(dst)@.len(),
        from + count <= src@.len(),
    ensures
        final(dst)@ == old(dst)@.take(at as int) + src@.subrange(from as int, from + count) + old(dst)@.skip(
            at + count,
        ),
{
    let dlen = dst.len();
    let slen = src.len();
    let mut k: usize = 0;
    while k < count
        invariant
            k <= count,
            at + count <= dlen,
            from + count <= slen,
            dlen == old(dst)@.len(),
            slen == src@.len(),
            at + count <= old(dst)@.len(),
            from + count <= src@.len(),
            dst@.len() == old(dst)@.len(),
            forall|i: int| 0 <= i < at ==> dst@[i] == old(dst)@[i],
            forall|i: int| at + count <= i < dst@.len() ==> dst@[i] == old(dst)@[i],
            forall|i: int| at <= i < at + k ==> dst@[i] == src@[from + (i - at)],
            forall|i: int| at + k <= i < at + count ==> dst@[i] == old(dst)@[i],
        decreases count - k,
    {
        dst.set(at + k, src[from + k]);
        k += 1;
    }
    assert(dst@ =~= old(dst)@.take(at as int) + src@.subrange(from as int, from + count) + old(dst)@.skip(at + count));
}

impl CpuBackend {
    /// A backend with the default configuration, no framebuffer, and the
    /// first handle 1.
    pub fn new() -> (b: Self)
        ensures
            b@ == (CpuBackendView {
                config: BackendConfig { backend: BackendType::Wgpu, width: 800, height: 600, vsync: true },
                framebuffer: Seq::empty(),
                width: 0,
                height: 0,
                textures: Map::empty(),
                buffers: Map::empty(),
                next_id: 1,
            }),
            b@.wf(),
    {
        let b = CpuBackend {
            config: BackendConfig { backend: BackendType::Wgpu, width: 800, height: 600, vsync: true },
            framebuffer: Vec::new(),
            width: 0,
            height: 0,
            textures: HashMap::new(),
            buffers: HashMap::new(),
            next_id: 1,
        };
        proof {
            assert(b@.textures =~= Map::empty());
            assert(b@.buffers =~= Map::empty());
        }
        b
    }

    /// Hands out the next handle.
    fn next_id(&mut self) -> (id: u64)
        requires
            old(self).next_id < u64::MAX,
        ensures
            id == old(self).next_id,
            final(self).next_id == id + 1,
            final(self).config == old(self).config,
            final(self).framebuffer == old(self).framebuffer,
            final(self).width == old(self).width,
            final(self).height == old(self).height,
            final(self).textures == old(self).textures,
            final(self).buffers == old(self).buffers,
    {
        let current = self.next_id;
        self.next_id = self.next_id + 1;
        current
    }

    /// The software backend's type.
    pub fn backend_type(&self) -> (t: BackendType)
        ensures
            t == BackendType::Cpu,
    {
        BackendType::Cpu
    }

    /// Sets up a `width` x `height` surface: a zeroed framebuffer of four
    /// bytes per pixel, and the size recorded in the configuration.
    pub fn initialize(&mut self, width: u32, height: u32) -> (r: Result<(), RendererError>)
        requires
            width * height * 4 <= u32::MAX,
        ensures
            r is Ok,
            final(self)@ == (CpuBackendView {
                config: BackendConfig { width, height, ..old(self)@.config },
                framebuffer: zeros((width * height * 4) as nat),
                width,
                height,
                ..old(self)@
            }),
    {
        self.config.width = width;
        self.config.height = height;
        self.width = width;
        self.height = height;
        let size = (width * height * 4) as usize;
        self.framebuffer = zero_bytes(size);
        Ok(())
    }

    /// Resizes the surface to `width` x `height` with a zeroed framebuffer
    /// (the configuration keeps the initial size).
    pub fn resize(&mut self, width: u32, height: u32) -> (r: Result<(), RendererError>)
        requires
            width * height * 4 <= u32::MAX,
        ensures
            r is Ok,
            final(self)@ == (CpuBackendView {
                framebuffer: zeros((width * height * 4) as nat),
                width,
                height,
                ..old(self)@
            }),
    {
        self.width = width;
        self.height = height;
        let size = (width * height * 4) as usize;
        self.framebuffer = zero_bytes(size);
        Ok(())
    }

    /// Clears the framebuffer to zero.
    pub fn begin_frame(&mut self) -> (r: Result<(), RendererError>)
        ensures
            r is Ok,
            final(self)@ == (CpuBackendView { framebuffer: zeros(old(self)@.framebuffer.len()), ..old(self)@ }),
    {
        let n = self.framebuffer.len();
        let mut i: usize = 0;
        while i < n
            invariant
                n == self.framebuffer@.len(),
                i <= n,
                forall|k: int| 0 <= k < i ==> self.framebuffer@[k] == 0,
                self@ == (CpuBackendView { framebuffer: self@.framebuffer, ..old(self)@ }),
                self.framebuffer@.len() == old(self)@.framebuffer.len(),
            decreases n - i,
        {
            self.framebuffer.set(i, 0);
            i += 1;
        }
        proof {
            assert(self.framebuffer@ =~= zeros(n as nat));
        }
        Ok(())
    }

    /// Ends the frame (nothing to do).
    pub fn end_frame(&mut self) -> (r: Result<(), RendererError>)
        ensures
            r is Ok,
            final(self)@ == old(self)@,
    {
        Ok(())
    }

    /// Presents the frame (nothing to do).
    pub fn present(&mut self) -> (r: Result<(), RendererError>)
        ensures
            r is Ok,
            final(self)@ == old(self)@,
    {
        Ok(())
    }

    /// The surface size.
    pub fn size(&self) -> (s: (u32, u32))
        ensures
            s == (self@.width, self@.height),
    {
        (self.width, self.height)
    }

    /// Always ready.
    pub fn is_ready(&self) -> (b: bool)
        ensures
            b,
    {
        true
    }

    /// The framebuffer's bytes.
    pub fn framebuffer(&self) -> (f: &Vec<u8>)
        ensures
            f@ == self@.framebuffer,
    {
        &self.framebuffer
    }

    /// Creates a zeroed `width` x `height` atlas texture under the next
    /// handle.
    pub fn create_atlas_texture(&mut self, width: u32, height: u32) -> (r: Result<AtlasTexture, RendererError>)
        requires
            old(self)@.wf(),
            old(self)@.next_id < u64::MAX,
            width * height <= u32::MAX,
        ensures
            final(self)@.wf(),
            r == Ok::<AtlasTexture, RendererError>(AtlasTexture { id: old(self)@.next_id, width, height }),
            final(self)@ == (CpuBackendView {
                textures: old(self)@.textures.insert(
                    old(self)@.next_id,
                    TextureView { width, height, data: zeros((width * height) as nat) },
                ),
                next_id: (old(self)@.next_id + 1) as u64,
                ..old(self)@
            }),
    {
        let id = self.next_id();
        let data = zero_bytes((width * height) as usize);
        let ghost t = self.textures@;
        self.textures.insert(id, CpuTexture { width, _height: height, data });
        proof {
            assert(self@.textures =~= old(self)@.textures.insert(
                id,
                TextureView { width, height, data: zeros((width * height) as nat) },
            ));
        }
        Ok(AtlasTexture { id, width, height })
    }

    /// Copies the `width` x `height` image `data` to `(x, y)` of atlas
    /// texture `texture` (rows that would leave the texture are skipped);
    /// an error when there is no such texture.
    pub fn update_atlas(
        &mut self,
        texture: &AtlasTexture,
        x: u32,
        y: u32,
        width: u32,
        height: u32,
        data: &[u8],
    ) -> (r: Result<(), RendererError>)
        requires
            old(self)@.textures.contains_key(texture.id) ==> {
                let t = old(self)@.textures[texture.id];
                blit_ok(t.width, t.data.len(), x, y, width, height, data@.len())
            },
        ensures
            !old(self)@.textures.contains_key(texture.id) ==> final(self)@ == old(self)@ && (r matches Err(
                RendererError::Backend(m),
            ) && m@ == "Texture not found"@),
            old(self)@.textures.contains_key(texture.id) ==> {
                let t = old(self)@.textures[texture.id];
                &&& r is Ok
                &&& final(self)@ == (CpuBackendView {
                    textures: old(self)@.textures.insert(
                        texture.id,
                        TextureView { data: blit(t.data, t.width, x, y, width, data@, height as nat), ..t },
                    ),
                    ..old(self)@
                })
            },
    {
        let id = texture.id;
        match self.textures.remove(&id) {
            None => {
                proof {
                    assert(self@.textures =~= old(self)@.textures);
                }
                Err(RendererError::backend("Texture not found"))
            },
            Some(mut tex) => {
                let ghost t = old(self)@.textures[id];
                let mut row: u32 = 0;
                while row < height
                    invariant
                        row <= height,
                        tex.width == t.width,
                        tex._height == t.height,
                        blit_ok(t.width, t.data.len(), x, y, width, height, data@.len()),
                        tex.data@ == blit(t.data, t.width, x, y, width, data@, row as nat),
                        tex.data@.len() == t.data.len(),
                    decreases height - row,
                {
                    proof {
                        assert(dst_start(t.width, x, y, row) <= u32::MAX);
                    }
                    let src_start = (row * width) as usize;
                    let dst_start = ((y + row) * tex.width + x) as usize;
                    let dst_end = dst_start as u64 + width as u64;
                    if dst_end <= tex.data.len() as u64 {
                        copy_into(&mut tex.data, dst_start, data, src_start, width as usize);
                    }
                    row += 1;
                }
                self.textures.insert(id, tex);
                proof {
                    assert(self@.textures =~= old(self)@.textures.insert(
                        id,
                        TextureView { data: blit(t.data, t.width, x, y, width, data@, height as nat), ..t },
                    ));
                }
                Ok(())
            },
        }
    }

    /// Stores a copy of `data` as a buffer under the next handle; returns
    /// the handle.
    fn store_buffer(&mut self, data: &[u8]) -> (id: u64)
        requires
            old(self)@.wf(),
            old(self)@.next_id < u64::MAX,
        ensures
            final(self)@.wf(),
            id == old(self)@.next_id,
            final(self)@ == (CpuBackendView {
                buffers: old(self)@.buffers.insert(id, data@),
                next_id: (id + 1) as u64,
                ..old(self)@
            }),
    {
        let id = self.next_id();
        let bytes = copy_bytes(data);
        self.buffers.insert(id, CpuBuffer { data: bytes, id });
        proof {
            assert(self@.buffers =~= old(self)@.buffers.insert(id, data@));
        }
        id
    }

    /// Creates a vertex buffer holding `data`.
    pub fn create_vertex_buffer(&mut self, data: &[u8]) -> (r: Result<VertexBuffer, RendererError>)
        requires
            old(self)@.wf(),
            old(self)@.next_id < u64::MAX,
        ensures
            final(self)@.wf(),
            r == Ok::<VertexBuffer, RendererError>(VertexBuffer { id: old(self)@.next_id, size: data@.len() as usize }),
            final(self)@ == (CpuBackendView {
                buffers: old(self)@.buffers.insert(old(self)@.next_id, data@),
                next_id: (old(self)@.next_id + 1) as u64,
                ..old(self)@
            }),
    {
        let id = self.store_buffer(data);
        Ok(VertexBuffer { id, size: data.len() })
    }

    /// Creates an index buffer holding `data` (16-bit indices).
    pub fn create_index_buffer(&mut self, data: &[u8]) -> (r: Result<IndexBuffer, RendererError>)
        requires
            old(self)@.wf(),
            old(self)@.next_id < u64::MAX,
        ensures
            final(self)@.wf(),
            r == Ok::<IndexBuffer, RendererError>(
                IndexBuffer { id: old(self)@.next_id, count: ((data@.len() as u32) / 2) as u32 },
            ),
            final(self)@ == (CpuBackendView {
                buffers: old(self)@.buffers.insert(old(self)@.next_id, data@),
                next_id: (old(self)@.next_id + 1) as u64,
                ..old(self)@
            }),
    {
        let id = self.store_buffer(data);
        Ok(IndexBuffer { id, count: data.len() as u32 / 2 })
    }

    /// Creates a uniform buffer holding `data`.
    pub fn create_uniform_buffer(&mut self, data: &[u8]) -> (r: Result<UniformBuffer, RendererError>)
        requires
            old(self)@.wf(),
            old(self)@.next_id < u64::MAX,
        ensures
            final(self)@.wf(),
            r == Ok::<UniformBuffer, RendererError>(UniformBuffer { id: old(self)@.next_id, size: data@.len() as usize }),
            final(self)@ == (CpuBackendView {
                buffers: old(self)@.buffers.insert(old(self)@.next_id, data@),
                next_id: (old(self)@.next_id + 1) as u64,
                ..old(self)@
            }),
    {
        let id = self.store_buffer(data);
        Ok(UniformBuffer { id, size: data.len() })
    }

    /// Writes `data` over the start of buffer `buffer_id`; an error when
    /// there is no such buffer or it is shorter than `data`.
    pub fn update_buffer(&mut self, buffer_id: u64, data: &[u8]) -> (r: Result<(), RendererError>)
        ensures
            !old(self)@.buffers.contains_key(buffer_id) ==> final(self)@ == old(self)@ && (r matches Err(
                RendererError::Backend(m),
            ) && m@ == "Buffer not found"@),
            old(self)@.buffers.contains_key(buffer_id) && old(self)@.buffers[buffer_id].len() < data@.len()
                ==> final(self)@ == old(self)@ && (r matches Err(RendererError::Backend(m)) && m@
                == "Buffer too small"@),
            old(self)@.buffers.contains_key(buffer_id) && old(self)@.buffers[buffer_id].len() >= data@.len() ==> {
                let b = old(self)@.buffers[buffer_id];
                &&& r is Ok
                &&& final(self)@ == (CpuBackendView {
                    buffers: old(self)@.buffers.insert(buffer_id, data@ + b.skip(data@.len() as int)),
                    ..old(self)@
                })
            },
    {
        match self.buffers.remove(&buffer_id) {
            None => {
                proof {
                    assert(self@.buffers =~= old(self)@.buffers);
                }
                Err(RendererError::backend("Buffer not found"))
            },
            Some(mut buf) => {
                if buf.data.len() >= data.len() {
                    copy_into(&mut buf.data, 0, data, 0, data.len());
                    proof {
                        assert(buf.data@ =~= data@ + old(self)@.buffers[buffer_id].skip(data@.len() as int));
                    }
                    self.buffers.insert(buffer_id, buf);
                    proof {
                        assert(self@.buffers =~= old(self)@.buffers.insert(
                            buffer_id,
                            data@ + old(self)@.buffers[buffer_id].skip(data@.len() as int),
                        ));
                    }
                    Ok(())
                } else {
                    self.buffers.insert(buffer_id, buf);
                    proof {
                        assert(self@.buffers =~= old(self)@.buffers);
                    }
                    Err(RendererError::backend("Buffer too small"))
                }
            },
        }
    }
}

impl Default for CpuBackend {
    fn default() -> (b: Self)
        ensures
            b@ == (CpuBackendView {
                config: BackendConfig { backend: BackendType::Wgpu, width: 800, height: 600, vsync: true },
                framebuffer: Seq::empty(),
                width: 0,
                height: 0,
                textures: Map::empty(),
                buffers: Map::empty(),
                next_id: 1,
            }),
    {
        Self::new()
    }
}

/// A new handle names no texture or buffer yet.
pub proof fn lemma_next_handle_fresh(v: CpuBackendView)
    requires
        v.wf(),
    ensures
        !v.textures.contains_key(v.next_id),
        !v.buffers.contains_key(v.next_id),
{
}

/// Copying an image into a texture never changes the texture's size.
pub proof fn lemma_blit_keeps_size(data: Seq<u8>, tex_width: u32, x: u32, y: u32, width: u32, src: Seq<u8>, rows: nat)
    requires
        forall|row: u32| row < rows ==> (#[trigger] dst_start(tex_width, x, y, row)) + width <= data.len()
            ==> row * width + width <= src.len(),
    ensures
        blit(data, tex_width, x, y, width, src, rows).len() == data.len(),
    decreases rows,
{
    if rows > 0 {
        lemma_blit_keeps_size(data, tex_width, x, y, width, src, (rows - 1) as nat);
        let row = (rows - 1) as u32;
        assert(dst_start(tex_width, x, y, row) + width <= data.len() ==> row * width + width <= src.len());
    }
}

} // verus!
