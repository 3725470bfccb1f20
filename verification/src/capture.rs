//! Video capture logic: frame containers, plane extraction from decoded
//! frames, the order in which capture settings are tried, and the
//! bookkeeping of the decode loop.
use vstd::prelude::*;
use crate::text::{
    chars_of, decimal, has_prefix, lower, owned, push_decimal,
    push_str, starts_with_chars, str_eq, string_from_chars,
};

verus! {

/// The planar YUV layouts the renderer accepts.
#[derive(Debug, Clone, Copy, PartialEq, Eq)]
pub enum PixelFormat {
    Nv12,
    Yuvj422p,
}

/// A decoded frame whose planes live in CPU memory.
#[derive(Debug)]
pub enum CaptureFrame {
    Cpu {
        width: u32,
        height: u32,
        format: PixelFormat,
        y_data: Vec<u8>,
        u_data: Vec<u8>,
        v_data: Vec<u8>,
    },
}

/// Two frames with the same geometry, layout and plane contents.
pub open spec fn same_frame(a: CaptureFrame, b: CaptureFrame) -> bool {
    match (a, b) {
        (
            CaptureFrame::Cpu { width: w1, height: h1, format: f1, y_data: y1, u_data: u1, v_data: v1 },
            CaptureFrame::Cpu { width: w2, height: h2, format: f2, y_data: y2, u_data: u2, v_data: v2 },
        ) => w1 == w2 && h1 == h2 && f1 == f2 && y1@ == y2@ && u1@ == u2@ && v1@ == v2@,
    }
}

fn copy_bytes(v: &Vec<u8>) -> (c: Vec<u8>)
    ensures
        c@ == v@,
{
    let c = v.clone();
    assert(c@ =~= v@);
    c
}

impl Clone for CaptureFrame {
    fn clone(&self) -> (copy: Self)
        ensures
            same_frame(copy, *self),
    {
        match self {
            CaptureFrame::Cpu { width, height, format, y_data, u_data, v_data } => CaptureFrame::Cpu {
                width: *width,
                height: *height,
                format: *format,
                y_data: copy_bytes(y_data),
                u_data: copy_bytes(u_data),
                v_data: copy_bytes(v_data),
            },
        }
    }
}

impl CaptureFrame {
    /// An empty frame, used to initialise frame slots.
    pub fn empty() -> (f: Self)
        ensures
            f matches CaptureFrame::Cpu { width, height, format, y_data, u_data, v_data } && width
                == 0 && height == 0 && format == PixelFormat::Nv12 && y_data@.len() == 0
                && u_data@.len() == 0 && v_data@.len() == 0,
    {
        CaptureFrame::Cpu {
            width: 0,
            height: 0,
            format: PixelFormat::Nv12,
            y_data: Vec::new(),
            u_data: Vec::new(),
            v_data: Vec::new(),
        }
    }

    /// Reshape this frame to the given geometry, keeping the existing plane
    /// buffers (and their leading contents) and zero-filling any growth; the
    /// planes are handed back for the caller to fill.
    pub fn reshape_cpu(
        &mut self,
        new_width: u32,
        new_height: u32,
        new_format: PixelFormat,
        y_len: usize,
        uv_len: usize,
    ) -> (planes: (&mut [u8], &mut [u8], &mut [u8]))
        ensures
            planes.0@.len() == y_len,
            planes.1@.len() == uv_len,
            planes.2@.len() == uv_len,
            forall|i: int| 0 <= i < planes.0@.len() ==> #[trigger] planes.0@[i] == (match *old(self) {
                CaptureFrame::Cpu { y_data, .. } => if i < y_data@.len() {
                    y_data@[i]
                } else {
                    0u8
                },
            }),
            forall|i: int| 0 <= i < planes.1@.len() ==> #[trigger] planes.1@[i] == (match *old(self) {
                CaptureFrame::Cpu { u_data, .. } => if i < u_data@.len() {
                    u_data@[i]
                } else {
                    0u8
                },
            }),
            forall|i: int| 0 <= i < planes.2@.len() ==> #[trigger] planes.2@[i] == (match *old(self) {
                CaptureFrame::Cpu { v_data, .. } => if i < v_data@.len() {
                    v_data@[i]
                } else {
                    0u8
                },
            }),
            *final(self) matches CaptureFrame::Cpu { width, height, format, y_data, u_data, v_data }
                && width == new_width && height == new_height && format == new_format && y_data@
                == final(planes.0)@ && u_data@ == final(planes.1)@ && v_data@ == final(planes.2)@,
    {
        match self {
            CaptureFrame::Cpu { width, height, format, y_data, u_data, v_data } => {
                *width = new_width;
                *height = new_height;
                *format = new_format;
                y_data.resize(y_len, 0);
                u_data.resize(uv_len, 0);
                v_data.resize(uv_len, 0);
                (y_data.as_mut_slice(), u_data.as_mut_slice(), v_data.as_mut_slice())
            },
        }
    }

    /// Frame width in pixels.
    pub fn width(&self) -> (w: u32)
        ensures
            *self matches CaptureFrame::Cpu { width, .. } && w == width,
    {
        match self {
            CaptureFrame::Cpu { width, .. } => *width,
        }
    }

    /// Frame height in pixels.
    pub fn height(&self) -> (h: u32)
        ensures
            *self matches CaptureFrame::Cpu { height, .. } && h == height,
    {
        match self {
            CaptureFrame::Cpu { height, .. } => *height,
        }
    }

    /// The frame's pixel layout.
    pub fn format(&self) -> (f: Option<PixelFormat>)
        ensures
            *self matches CaptureFrame::Cpu { format, .. } && f == Some(format),
    {
        match self {
            CaptureFrame::Cpu { format, .. } => Some(*format),
        }
    }
}


/// `xs` with `x` appended unless it is already present.
pub open spec fn push_unique<T>(xs: Seq<T>, x: T) -> Seq<T> {
    if xs.contains(x) {
        xs
    } else {
        xs.push(x)
    }
}

/// No element occurs twice.
pub open spec fn distinct<T>(xs: Seq<T>) -> bool {
    forall|i: int, j: int| 0 <= i < j < xs.len() ==> xs[i] != xs[j]
}

/// Adds the 60 and 30 fps tiers of a standard fallback size unless that size
/// is at least the requested one in both dimensions.
pub open spec fn with_fallback_size(
    tiers: Seq<(u32, u32, u32)>,
    fw: u32,
    fh: u32,
    width: u32,
    height: u32,
) -> Seq<(u32, u32, u32)> {
    if fw >= width && fh >= height {
        tiers
    } else {
        push_unique(push_unique(tiers, (fw, fh, 60u32)), (fw, fh, 30u32))
    }
}

/// The (width, height, fps) combinations to try, in order: the request, the
/// same size at half the rate (above 30 fps), the same size at 30 fps, then
/// 1920x1080, 1280x720 and 640x480 at 60 and 30 fps where smaller than the
/// request; no combination twice.
pub open spec fn fallback_tiers(width: u32, height: u32, fps: u32) -> Seq<(u32, u32, u32)> {
    let t0 = seq![(width, height, fps)];
    let t1 = if fps > 30 {
        push_unique(t0, (width, height, fps / 2))
    } else {
        t0
    };
    let t2 = if fps != 30 {
        push_unique(t1, (width, height, 30u32))
    } else {
        t1
    };
    let t3 = with_fallback_size(t2, 1920, 1080, width, height);
    let t4 = with_fallback_size(t3, 1280, 720, width, height);
    with_fallback_size(t4, 640, 480, width, height)
}

fn push_unique_tier(tiers: &mut Vec<(u32, u32, u32)>, tier: (u32, u32, u32))
    ensures
        final(tiers)@ == push_unique(old(tiers)@, tier),
{
    let mut i: usize = 0;
    while i < tiers.len()
        invariant
            i <= tiers.len(),
            tiers@ == old(tiers)@,
            forall|j: int| 0 <= j < i ==> tiers@[j] != tier,
        decreases tiers.len() - i,
    {
        let t = tiers[i];
        if t.0 == tier.0 && t.1 == tier.1 && t.2 == tier.2 {
            assert(tiers@[i as int] == tier);
            return;
        }
        i += 1;
    }
    tiers.push(tier);
}

fn push_fallback_size(tiers: &mut Vec<(u32, u32, u32)>, fw: u32, fh: u32, width: u32, height: u32)
    ensures
        final(tiers)@ == with_fallback_size(old(tiers)@, fw, fh, width, height),
{
    if fw >= width && fh >= height {
        return;
    }
    push_unique_tier(tiers, (fw, fh, 60));
    push_unique_tier(tiers, (fw, fh, 30));
}

/// Build an ordered list of (width, height, fps) to try. Starts with the
/// requested settings, then appends common fallback tiers — halved fps at
/// the same resolution, then standard lower resolutions at 60/30 fps.
/// Duplicates are excluded.
pub fn resolution_fallback_tiers(width: u32, height: u32, fps: u32) -> (tiers: Vec<(u32, u32, u32)>)
    ensures
        tiers@ == fallback_tiers(width, height, fps),
{
    let mut tiers: Vec<(u32, u32, u32)> = Vec::new();
    tiers.push((width, height, fps));
    if fps > 30 {
        push_unique_tier(&mut tiers, (width, height, fps / 2));
    }
    if fps != 30 {
        push_unique_tier(&mut tiers, (width, height, 30));
    }
    push_fallback_size(&mut tiers, 1920, 1080, width, height);
    push_fallback_size(&mut tiers, 1280, 720, width, height);
    push_fallback_size(&mut tiers, 640, 480, width, height);
    tiers
}

proof fn lemma_push_unique_distinct<T>(xs: Seq<T>, x: T)
    requires
        distinct(xs),
    ensures
        distinct(push_unique(xs, x)),
        push_unique(xs, x).len() > 0,
        xs.len() > 0 ==> push_unique(xs, x)[0] == xs[0],
        push_unique(xs, x).contains(x),
        forall|y: T| xs.contains(y) ==> push_unique(xs, x).contains(y),
{
    if !xs.contains(x) {
        let ys = xs.push(x);
        assert forall|i: int, j: int| 0 <= i < j < ys.len() implies ys[i] != ys[j] by {
            if j == xs.len() {
                assert(xs[i] == ys[i]);
            }
        }
        assert(ys[xs.len() as int] == x);
        assert forall|y: T| xs.contains(y) implies ys.contains(y) by {
            let k = choose|k: int| 0 <= k < xs.len() && xs[k] == y;
            assert(ys[k] == y);
        }
    }
}

proof fn lemma_with_fallback_distinct(tiers: Seq<(u32, u32, u32)>, fw: u32, fh: u32, width: u32, height: u32)
    requires
        distinct(tiers),
        tiers.len() > 0,
    ensures
        distinct(with_fallback_size(tiers, fw, fh, width, height)),
        with_fallback_size(tiers, fw, fh, width, height)[0] == tiers[0],
        forall|y: (u32, u32, u32)| tiers.contains(y) ==> with_fallback_size(tiers, fw, fh, width, height).contains(y),
{
    if !(fw >= width && fh >= height) {
        lemma_push_unique_distinct(tiers, (fw, fh, 60u32));
        lemma_push_unique_distinct(push_unique(tiers, (fw, fh, 60u32)), (fw, fh, 30u32));
    }
}

/// Law: the tiers start with the request, never repeat a combination, and
/// include the request at 30 fps.
pub proof fn lemma_fallback_tiers_shape(width: u32, height: u32, fps: u32)
    ensures
        fallback_tiers(width, height, fps)[0] == (width, height, fps),
        distinct(fallback_tiers(width, height, fps)),
        fallback_tiers(width, height, fps).contains((width, height, 30u32)),
{
    let t0 = seq![(width, height, fps)];
    assert(t0[0] == (width, height, fps));
    let t1 = if fps > 30 {
        push_unique(t0, (width, height, fps / 2))
    } else {
        t0
    };
    lemma_push_unique_distinct(t0, (width, height, fps / 2));
    let t2 = if fps != 30 {
        push_unique(t1, (width, height, 30u32))
    } else {
        t1
    };
    lemma_push_unique_distinct(t1, (width, height, 30u32));
    assert(t2.contains((width, height, 30u32))) by {
        if fps == 30 {
            assert(t0[0] == (width, height, 30u32));
            if fps > 30 {
            }
            assert(t1[0] == (width, height, 30u32));
        }
    }
    let t3 = with_fallback_size(t2, 1920, 1080, width, height);
    lemma_with_fallback_distinct(t2, 1920, 1080, width, height);
    let t4 = with_fallback_size(t3, 1280, 720, width, height);
    lemma_with_fallback_distinct(t3, 1280, 720, width, height);
    lemma_with_fallback_distinct(t4, 640, 480, width, height);
}

proof fn lemma_push_unique_keeps_prefix<T>(xs: Seq<T>, x: T)
    ensures
        push_unique(xs, x).len() >= xs.len(),
        forall|i: int| 0 <= i < xs.len() ==> #[trigger] push_unique(xs, x)[i] == xs[i],
{
}

proof fn lemma_with_fallback_keeps_prefix(
    tiers: Seq<(u32, u32, u32)>,
    fw: u32,
    fh: u32,
    width: u32,
    height: u32,
)
    ensures
        with_fallback_size(tiers, fw, fh, width, height).len() >= tiers.len(),
        forall|i: int|
            0 <= i < tiers.len() ==> #[trigger] with_fallback_size(tiers, fw, fh, width, height)[i]
                == tiers[i],
{
    lemma_push_unique_keeps_prefix(tiers, (fw, fh, 60u32));
    lemma_push_unique_keeps_prefix(push_unique(tiers, (fw, fh, 60u32)), (fw, fh, 30u32));
}

/// Law (half rate first): above 30 fps the second combination tried is the
/// requested size at half the requested rate; at any other rate but 30 it is
/// the requested size at 30 fps.
pub proof fn lemma_half_rate_tier_second(width: u32, height: u32, fps: u32)
    ensures
        fps > 30 ==> fallback_tiers(width, height, fps).len() >= 2 && fallback_tiers(
            width,
            height,
            fps,
        )[1] == (width, height, fps / 2),
        fps <= 30 && fps != 30 ==> fallback_tiers(width, height, fps).len() >= 2 && fallback_tiers(
            width,
            height,
            fps,
        )[1] == (width, height, 30u32),
        fps > 30 ==> fallback_tiers(width, height, fps).contains((width, height, fps / 2)),
{
    let t0 = seq![(width, height, fps)];
    let t1 = if fps > 30 {
        push_unique(t0, (width, height, fps / 2))
    } else {
        t0
    };
    let t2 = if fps != 30 {
        push_unique(t1, (width, height, 30u32))
    } else {
        t1
    };
    if fps > 30 {
        assert(!t0.contains((width, height, fps / 2))) by {
            if t0.contains((width, height, fps / 2)) {
                let k = choose|k: int| 0 <= k < t0.len() && t0[k] == (width, height, fps / 2);
                assert(t0[k] == (width, height, fps));
            }
        }
        assert(t1 == t0.push((width, height, fps / 2)));
    } else if fps != 30 {
        assert(!t1.contains((width, height, 30u32))) by {
            if t1.contains((width, height, 30u32)) {
                let k = choose|k: int| 0 <= k < t1.len() && t1[k] == (width, height, 30u32);
                assert(t1[k] == (width, height, fps));
            }
        }
        assert(t2 == t1.push((width, height, 30u32)));
    }
    lemma_push_unique_keeps_prefix(t1, (width, height, 30u32));
    let t3 = with_fallback_size(t2, 1920, 1080, width, height);
    lemma_with_fallback_keeps_prefix(t2, 1920, 1080, width, height);
    let t4 = with_fallback_size(t3, 1280, 720, width, height);
    lemma_with_fallback_keeps_prefix(t3, 1280, 720, width, height);
    lemma_with_fallback_keeps_prefix(t4, 640, 480, width, height);
    if fps > 30 {
        assert(t2[1] == (width, height, fps / 2));
        assert(fallback_tiers(width, height, fps)[1] == (width, height, fps / 2));
    }
}

/// The pixel formats to try, in order: the requested one, then mjpeg, nv12,
/// yuyv422, uyvy422, yuv420p, then the device default (`None`); no entry
/// twice.
pub open spec fn format_attempts(requested: Seq<char>) -> Seq<Option<Seq<char>>> {
    let a0 = seq![Some(requested)];
    let a1 = push_unique(a0, Some("mjpeg"@));
    let a2 = push_unique(a1, Some("nv12"@));
    let a3 = push_unique(a2, Some("yuyv422"@));
    let a4 = push_unique(a3, Some("uyvy422"@));
    let a5 = push_unique(a4, Some("yuv420p"@));
    push_unique(a5, None)
}

/// The view of a list of optional strings.
pub open spec fn option_views(v: Seq<Option<String>>) -> Seq<Option<Seq<char>>> {
    v.map_values(|o: Option<String>| match o {
        Some(s) => Some(s@),
        None => None,
    })
}

fn push_unique_format(attempts: &mut Vec<Option<String>>, value: Option<&str>)
    ensures
        option_views(final(attempts)@) == push_unique(
            option_views(old(attempts)@),
            match value {
                Some(s) => Some(s@),
                None => None,
            },
        ),
{
    let ghost target = match value {
        Some(s) => Some(s@),
        None => None::<Seq<char>>,
    };
    let mut i: usize = 0;
    while i < attempts.len()
        invariant
            i <= attempts.len(),
            attempts@ == old(attempts)@,
            target == match value {
                Some(s) => Some(s@),
                None => None::<Seq<char>>,
            },
            forall|j: int| 0 <= j < i ==> option_views(attempts@)[j] != target,
        decreases attempts.len() - i,
    {
        assert(option_views(attempts@)[i as int] == (match attempts@[i as int] {
            Some(s) => Some(s@),
            None => None::<Seq<char>>,
        }));
        let same = match &attempts[i] {
            Some(existing) => match value {
                Some(v) => {
                    let eq = str_eq(existing.as_str(), v);
                    assert(attempts@[i as int] == Some(*existing));
                    eq
                },
                None => false,
            },
            None => match value {
                Some(_) => false,
                None => true,
            },
        };
        if same {
            assert(option_views(attempts@)[i as int] == target);
            return;
        }
        i += 1;
    }
    let entry = match value {
        Some(v) => Some(owned(v)),
        None => None,
    };
    attempts.push(entry);
    assert(option_views(attempts@) == option_views(old(attempts)@).push(target));
}

/// The pixel formats to try for a requested format (see
/// [`format_attempts`]); `None` lets the device choose.
pub fn pixel_format_attempts(requested_pixel_format: &str) -> (attempts: Vec<Option<String>>)
    ensures
        option_views(attempts@) == format_attempts(requested_pixel_format@),
{
    let mut attempts: Vec<Option<String>> = Vec::new();
    attempts.push(Some(owned(requested_pixel_format)));
    assert(option_views(attempts@) == seq![Some(requested_pixel_format@)]);
    push_unique_format(&mut attempts, Some("mjpeg"));
    push_unique_format(&mut attempts, Some("nv12"));
    push_unique_format(&mut attempts, Some("yuyv422"));
    push_unique_format(&mut attempts, Some("uyvy422"));
    push_unique_format(&mut attempts, Some("yuv420p"));
    push_unique_format(&mut attempts, None);
    attempts
}

/// Law: the attempts start with the requested format, never repeat one, and
/// always include mjpeg, nv12 and the device default.
pub proof fn lemma_format_attempts_shape(requested: Seq<char>)
    ensures
        format_attempts(requested)[0] == Some(requested),
        distinct(format_attempts(requested)),
        format_attempts(requested).contains(Some("mjpeg"@)),
        format_attempts(requested).contains(Some("nv12"@)),
        format_attempts(requested).contains(None::<Seq<char>>),
{
    let a0 = seq![Some(requested)];
    assert(a0[0] == Some(requested));
    let a1 = push_unique(a0, Some("mjpeg"@));
    lemma_push_unique_distinct(a0, Some("mjpeg"@));
    let a2 = push_unique(a1, Some("nv12"@));
    lemma_push_unique_distinct(a1, Some("nv12"@));
    let a3 = push_unique(a2, Some("yuyv422"@));
    lemma_push_unique_distinct(a2, Some("yuyv422"@));
    let a4 = push_unique(a3, Some("uyvy422"@));
    lemma_push_unique_distinct(a3, Some("uyvy422"@));
    let a5 = push_unique(a4, Some("yuv420p"@));
    lemma_push_unique_distinct(a4, Some("yuv420p"@));
    lemma_push_unique_distinct(a5, None);
}


/// `rows` rows of `row_bytes` bytes each, row `r` taken from offset
/// `r * stride` of `src`.
pub open spec fn plane_rows(src: Seq<u8>, stride: int, row_bytes: int, rows: nat) -> Seq<u8>
    decreases rows,
{
    if rows == 0 {
        Seq::empty()
    } else {
        plane_rows(src, stride, row_bytes, (rows - 1) as nat) + src.subrange(
            (rows - 1) * stride,
            (rows - 1) * stride + row_bytes,
        )
    }
}

/// Every one of `rows` rows of `row_bytes` bytes at `stride` lies inside a
/// plane of `len` bytes, and the packed copy fits in memory.
pub open spec fn rows_fit(len: nat, stride: nat, row_bytes: nat, rows: nat) -> bool {
    &&& rows == 0 || (rows - 1) * stride + row_bytes <= len
    &&& row_bytes * rows <= usize::MAX
}

proof fn lemma_plane_rows_len(src: Seq<u8>, stride: int, row_bytes: int, rows: nat)
    requires
        row_bytes >= 0,
        stride >= 0,
        rows == 0 || (rows - 1) * stride + row_bytes <= src.len(),
    ensures
        plane_rows(src, stride, row_bytes, rows).len() == rows * row_bytes,
    decreases rows,
{
    if rows > 0 {
        assert(0 <= (rows - 1) * stride) by (nonlinear_arith)
            requires
                rows >= 1,
                stride >= 0,
        ;
        if rows > 1 {
            assert((rows - 2) * stride <= (rows - 1) * stride) by (nonlinear_arith)
                requires
                    rows >= 2,
                    stride >= 0,
            ;
        }
        lemma_plane_rows_len(src, stride, row_bytes, (rows - 1) as nat);
        assert((rows - 1) * row_bytes + row_bytes == rows * row_bytes) by (nonlinear_arith);
    }
}

/// Packs `rows` rows of `row_bytes` bytes, stored `stride` bytes apart in
/// `source`, into a contiguous plane.
pub fn copy_plane(source: &[u8], stride: usize, row_bytes: usize, rows: usize) -> (output: Vec<u8>)
    requires
        rows_fit(source@.len(), stride as nat, row_bytes as nat, rows as nat),
    ensures
        output@ == plane_rows(source@, stride as int, row_bytes as int, rows as nat),
        output@.len() == row_bytes * rows,
{
    let mut output: Vec<u8> = Vec::new();
    let mut row: usize = 0;
    let mut start: usize = 0;
    while row < rows
        invariant
            rows_fit(source@.len(), stride as nat, row_bytes as nat, rows as nat),
            row <= rows,
            row < rows ==> start == row * stride,
            source@.len() == source.len(),
            output@ == plane_rows(source@, stride as int, row_bytes as int, row as nat),
        decreases rows - row,
    {
        assert(row * stride <= (rows - 1) * stride) by (nonlinear_arith)
            requires
                row < rows,
        ;
        let mut c: usize = 0;
        let ghost before = output@;
        while c < row_bytes
            invariant
                row < rows,
                start == row * stride,
                start + row_bytes <= source.len(),
                c <= row_bytes,
                output@ == before + source@.subrange(start as int, start + c),
            decreases row_bytes - c,
        {
            output.push(source[start + c]);
            assert(source@.subrange(start as int, start + c + 1) == source@.subrange(
                start as int,
                start + c,
            ).push(source@[start + c]));
            c += 1;
        }
        assert(output@ == plane_rows(source@, stride as int, row_bytes as int, (row + 1) as nat));
        row += 1;
        if row < rows {
            assert(row * stride == (row - 1) * stride + stride) by (nonlinear_arith);
            assert(row * stride <= (rows - 1) * stride) by (nonlinear_arith)
                requires
                    row < rows,
            ;
            start = start + stride;
        }
    }
    proof {
        lemma_plane_rows_len(source@, stride as int, row_bytes as int, rows as nat);
        assert(rows * row_bytes == row_bytes * rows) by (nonlinear_arith);
    }
    output
}

/// One plane of a decoded frame: its bytes and the distance between rows.
pub struct PlaneData<'a> {
    pub data: &'a [u8],
    pub stride: usize,
}

/// Bytes per row and number of rows of plane `plane` of a `format` frame of
/// the given size: NV12 has a full luma plane and an interleaved chroma plane
/// of half height; YUVJ422P has a full luma plane and two chroma planes of
/// half width.
pub open spec fn plane_shape(format: PixelFormat, width: nat, height: nat, plane: int) -> (nat, nat) {
    match format {
        PixelFormat::Nv12 => if plane == 0 {
            (width, height)
        } else {
            (width, height / 2)
        },
        PixelFormat::Yuvj422p => if plane == 0 {
            (width, height)
        } else {
            (width / 2, height)
        },
    }
}

/// The number of planes a format uses.
pub open spec fn plane_count(format: PixelFormat) -> int {
    match format {
        PixelFormat::Nv12 => 2,
        PixelFormat::Yuvj422p => 3,
    }
}

/// The packed contents of plane `plane` of `planes` for a `format` frame.
pub open spec fn packed_plane(planes: Seq<PlaneData>, format: PixelFormat, width: nat, height: nat, plane: int) -> Seq<u8> {
    let shape = plane_shape(format, width, height, plane);
    plane_rows(planes[plane].data@, planes[plane].stride as int, shape.0 as int, shape.1)
}

/// The planes of a `format` frame of the given size are all present and hold
/// every row they should.
pub open spec fn planes_fit(planes: Seq<PlaneData>, format: PixelFormat, width: nat, height: nat) -> bool {
    &&& planes.len() >= plane_count(format)
    &&& forall|p: int| 0 <= p < plane_count(format) ==> #[trigger] rows_fit(
        planes[p].data@.len(),
        planes[p].stride as nat,
        plane_shape(format, width, height, p).0,
        plane_shape(format, width, height, p).1,
    )
}

/// Packs the planes of a decoded frame into a [`CaptureFrame`].
pub fn extract_supported_frame_with_format(
    planes: &[PlaneData],
    format: PixelFormat,
    width: u32,
    height: u32,
) -> (frame: Result<CaptureFrame, String>)
    requires
        planes_fit(planes@, format, width as nat, height as nat),
    ensures
        frame matches Ok(CaptureFrame::Cpu { width: w, height: h, format: f, y_data, u_data, v_data })
            && w == width && h == height && f == format
            && y_data@ == packed_plane(planes@, format, width as nat, height as nat, 0)
            && u_data@ == packed_plane(planes@, format, width as nat, height as nat, 1)
            && v_data@ == if format == PixelFormat::Nv12 {
                Seq::<u8>::empty()
            } else {
                packed_plane(planes@, format, width as nat, height as nat, 2)
            },
{
    let w = width as usize;
    let h = height as usize;
    assert(rows_fit(
        planes@[0].data@.len(),
        planes@[0].stride as nat,
        plane_shape(format, width as nat, height as nat, 0).0,
        plane_shape(format, width as nat, height as nat, 0).1,
    ));
    assert(rows_fit(
        planes@[1].data@.len(),
        planes@[1].stride as nat,
        plane_shape(format, width as nat, height as nat, 1).0,
        plane_shape(format, width as nat, height as nat, 1).1,
    ));
    let y_data = copy_plane(planes[0].data, planes[0].stride, w, h);
    let u_data = match format {
        PixelFormat::Nv12 => copy_plane(planes[1].data, planes[1].stride, w, h / 2),
        PixelFormat::Yuvj422p => copy_plane(planes[1].data, planes[1].stride, w / 2, h),
    };
    let v_data = match format {
        PixelFormat::Nv12 => Vec::new(),
        PixelFormat::Yuvj422p => {
            assert(rows_fit(
                planes@[2].data@.len(),
                planes@[2].stride as nat,
                plane_shape(format, width as nat, height as nat, 2).0,
                plane_shape(format, width as nat, height as nat, 2).1,
            ));
            copy_plane(planes[2].data, planes[2].stride, w / 2, h)
        },
    };
    Ok(CaptureFrame::Cpu { width, height, format, y_data, u_data, v_data })
}


/// The settings a device was actually opened at, reported when they differ
/// from the request.
#[derive(Debug, Clone, Copy, PartialEq, Eq)]
pub struct NegotiatedConfig {
    pub width: u32,
    pub height: u32,
    pub fps: u32,
}

/// Where frames come from.
#[derive(Debug)]
pub enum CaptureSource {
    /// A generated moving test pattern.
    TestPattern { alternate_formats: bool, force_format: Option<PixelFormat> },
    /// A capture device opened through the platform's default backend.
    Device { device_name: String, pixel_format: String, decode_threads: usize },
    /// A capture device opened through Video4Linux2.
    V4L2 { device_name: String, pixel_format: String, decode_threads: usize },
}

/// What the capture thread is asked to deliver.
#[derive(Debug)]
pub struct CaptureConfig {
    pub width: u32,
    pub height: u32,
    pub fps: u32,
    pub source: CaptureSource,
}

/// One way of opening the device: a frame size and rate, and a pixel format
/// (`None` lets the device choose).
#[derive(Debug)]
pub struct CaptureAttempt {
    pub width: u32,
    pub height: u32,
    pub fps: u32,
    pub pixel_format: Option<String>,
}

fn copy_format(f: &Option<String>) -> (c: Option<String>)
    ensures
        c == *f,
{
    match f {
        Some(s) => Some(s.clone()),
        None => None,
    }
}

/// The order in which a capture device is opened: every pixel format of
/// [`format_attempts`] at the first tier of [`fallback_tiers`], then every
/// format at the next tier, and so on, until one succeeds.
pub struct CapturePlan {
    requested_width: u32,
    requested_height: u32,
    requested_fps: u32,
    tiers: Vec<(u32, u32, u32)>,
    formats: Vec<Option<String>>,
    tier: usize,
    format: usize,
    last_error: Option<String>,
}

impl CapturePlan {
    /// The tiers to go through.
    pub closed spec fn spec_tiers(&self) -> Seq<(u32, u32, u32)> {
        self.tiers@
    }

    /// The pixel formats tried at each tier.
    pub closed spec fn spec_formats(&self) -> Seq<Option<Seq<char>>> {
        option_views(self.formats@)
    }

    /// The tier of the next attempt.
    pub closed spec fn spec_tier(&self) -> nat {
        self.tier as nat
    }

    /// The pixel format (position in `spec_formats`) of the next attempt.
    pub closed spec fn spec_format(&self) -> nat {
        self.format as nat
    }

    /// The error of the last failed attempt.
    pub closed spec fn spec_last_error(&self) -> Option<Seq<char>> {
        match self.last_error {
            Some(e) => Some(e@),
            None => None,
        }
    }

    /// The request the plan was made for.
    pub closed spec fn spec_requested(&self) -> (u32, u32, u32) {
        (self.requested_width, self.requested_height, self.requested_fps)
    }

    /// The plan's internal invariant.
    pub closed spec fn wf(&self) -> bool {
        &&& self.formats@.len() > 0
        &&& self.format < self.formats@.len()
        &&& self.tier <= self.tiers@.len()
        &&& (self.tier == self.tiers@.len() ==> self.format == 0)
    }

    /// A plan for the requested settings, before any attempt.
    pub fn new(width: u32, height: u32, fps: u32, pixel_format: &str) -> (plan: Self)
        ensures
            plan.wf(),
            plan.spec_tiers() == fallback_tiers(width, height, fps),
            plan.spec_formats() == format_attempts(pixel_format@),
            plan.spec_tier() == 0,
            plan.spec_format() == 0,
            plan.spec_last_error() is None,
            plan.spec_requested() == (width, height, fps),
    {
        let tiers = resolution_fallback_tiers(width, height, fps);
        let formats = pixel_format_attempts(pixel_format);
        proof {
            lemma_format_attempts_shape(pixel_format@);
        }
        CapturePlan {
            requested_width: width,
            requested_height: height,
            requested_fps: fps,
            tiers,
            formats,
            tier: 0,
            format: 0,
            last_error: None,
        }
    }

    /// The next way to open the device, or `None` when all have been tried.
    pub fn next_attempt(&mut self) -> (attempt: Option<CaptureAttempt>)
        requires
            old(self).wf(),
        ensures
            final(self).wf(),
            final(self).spec_tiers() == old(self).spec_tiers(),
            final(self).spec_formats() == old(self).spec_formats(),
            final(self).spec_last_error() == old(self).spec_last_error(),
            final(self).spec_requested() == old(self).spec_requested(),
            old(self).spec_tier() >= old(self).spec_tiers().len() ==> attempt is None
                && final(self).spec_tier() == old(self).spec_tier() && final(self).spec_format()
                == old(self).spec_format(),
            old(self).spec_tier() < old(self).spec_tiers().len() ==> {
                let t = old(self).spec_tiers()[old(self).spec_tier() as int];
                &&& attempt matches Some(a) && a.width == t.0 && a.height == t.1 && a.fps == t.2
                    && (match a.pixel_format {
                    Some(f) => Some(f@),
                    None => None,
                }) == old(self).spec_formats()[old(self).spec_format() as int]
                &&& if old(self).spec_format() + 1 < old(self).spec_formats().len() {
                    final(self).spec_tier() == old(self).spec_tier() && final(self).spec_format()
                        == old(self).spec_format() + 1
                } else {
                    final(self).spec_tier() == old(self).spec_tier() + 1
                        && final(self).spec_format() == 0
                }
            },
    {
        if self.tier >= self.tiers.len() {
            return None;
        }
        let (width, height, fps) = self.tiers[self.tier];
        let pixel_format = copy_format(&self.formats[self.format]);
        assert(self.spec_formats()[self.format as int] == (match self.formats@[self.format as int] {
            Some(f) => Some(f@),
            None => None::<Seq<char>>,
        }));
        if self.format < self.formats.len() - 1 {
            self.format = self.format + 1;
        } else {
            self.format = 0;
            self.tier = self.tier + 1;
        }
        Some(CaptureAttempt { width, height, fps, pixel_format })
    }

    /// Notes the error of a failed attempt.
    pub fn record_failure(&mut self, error: String)
        ensures
            final(self).spec_last_error() == Some(error@),
            final(self).spec_tiers() == old(self).spec_tiers(),
            final(self).spec_formats() == old(self).spec_formats(),
            final(self).spec_tier() == old(self).spec_tier(),
            final(self).spec_format() == old(self).spec_format(),
            final(self).spec_requested() == old(self).spec_requested(),
            old(self).wf() ==> final(self).wf(),
    {
        self.last_error = Some(error);
    }

    /// The settings to report after `attempt` succeeded: `Some` exactly when
    /// they differ from the request.
    pub fn negotiated(&self, attempt: &CaptureAttempt) -> (n: Option<NegotiatedConfig>)
        ensures
            n == if (attempt.width, attempt.height, attempt.fps) == self.spec_requested() {
                None
            } else {
                Some(NegotiatedConfig { width: attempt.width, height: attempt.height, fps: attempt.fps })
            },
    {
        if attempt.width != self.requested_width || attempt.height != self.requested_height
            || attempt.fps != self.requested_fps {
            Some(NegotiatedConfig { width: attempt.width, height: attempt.height, fps: attempt.fps })
        } else {
            None
        }
    }

    /// The error to report when every attempt failed: the last attempt's
    /// error, or a generic message naming the device when none was recorded.
    pub fn failure_message(&self, device_name: &str) -> (message: String)
        ensures
            message@ == match self.spec_last_error() {
                Some(e) => e,
                None => "all capture attempts failed for '"@ + device_name@ + "'"@,
            },
    {
        match &self.last_error {
            Some(e) => e.clone(),
            None => {
                let mut m = owned("all capture attempts failed for '");
                push_str(&mut m, device_name);
                push_str(&mut m, "'");
                m
            },
        }
    }
}

/// The layout of test-pattern frame `frame_index`: the forced layout when
/// there is one; otherwise, when alternating, three seconds of NV12 followed
/// by three seconds of YUVJ422P, over and over; otherwise NV12.
pub fn test_pattern_format(
    force_format: Option<PixelFormat>,
    alternate_formats: bool,
    frame_index: u64,
    fps: u32,
) -> (format: PixelFormat)
    requires
        fps > 0,
    ensures
        format == match force_format {
            Some(f) => f,
            None => if alternate_formats && (frame_index / fps as u64) % 6 >= 3 {
                PixelFormat::Yuvj422p
            } else {
                PixelFormat::Nv12
            },
        },
{
    match force_format {
        Some(f) => f,
        None => {
            if alternate_formats && (frame_index / fps as u64) % 6 >= 3 {
                PixelFormat::Yuvj422p
            } else {
                PixelFormat::Nv12
            }
        },
    }
}

/// Plane lengths of a test-pattern frame: a full-size luma plane, and either
/// one interleaved half-by-half chroma plane (NV12) or two half-width,
/// full-height chroma planes (YUVJ422P).
pub open spec fn test_pattern_plane_lens(width: nat, height: nat, format: PixelFormat) -> (
    nat,
    nat,
    nat,
) {
    match format {
        PixelFormat::Nv12 => (width * height, (width / 2) * (height / 2) * 2, 0),
        PixelFormat::Yuvj422p => (width * height, (width / 2) * height, (width / 2) * height),
    }
}

/// A zero-filled test-pattern frame of the given geometry and layout, whose
/// planes have the lengths of [`test_pattern_plane_lens`]; the pattern itself
/// is drawn into it afterwards.
pub fn blank_test_frame(width: u32, height: u32, format: PixelFormat) -> (f: CaptureFrame)
    requires
        width * height <= u32::MAX,
    ensures
        f matches CaptureFrame::Cpu { width: w, height: h, format: fmt, y_data, u_data, v_data }
            && w == width && h == height && fmt == format
            && (y_data@.len(), u_data@.len(), v_data@.len())
                == test_pattern_plane_lens(width as nat, height as nat, format)
            && (forall|i: int| 0 <= i < y_data@.len() ==> #[trigger] y_data@[i] == 0u8)
            && (forall|i: int| 0 <= i < u_data@.len() ==> #[trigger] u_data@[i] == 0u8)
            && (forall|i: int| 0 <= i < v_data@.len() ==> #[trigger] v_data@[i] == 0u8),
{
    let cw: u32 = width / 2;
    proof {
        assert(cw * height <= width * height) by (nonlinear_arith)
            requires cw <= width;
        assert(cw * (height / 2) * 2 <= width * height) by (nonlinear_arith)
            requires cw <= width, cw * 2 <= width;
    }
    let y_len: usize = (width * height) as usize;
    let y_data: Vec<u8> = vec![0u8; y_len];
    match format {
        PixelFormat::Nv12 => {
            let uv_len: usize = (cw * (height / 2) * 2) as usize;
            let u_data: Vec<u8> = vec![0u8; uv_len];
            CaptureFrame::Cpu { width, height, format, y_data, u_data, v_data: Vec::new() }
        },
        PixelFormat::Yuvj422p => {
            let c_len: usize = (cw * height) as usize;
            let u_data: Vec<u8> = vec![0u8; c_len];
            let v_data: Vec<u8> = vec![0u8; c_len];
            CaptureFrame::Cpu { width, height, format, y_data, u_data, v_data }
        },
    }
}

/// The capture backend a device is opened through.
#[derive(Debug, Clone, Copy, PartialEq, Eq)]
pub enum CaptureBackend {
    DirectShow,
    V4l2,
}

/// `s` equals "mjpeg" up to ASCII case.
pub open spec fn is_mjpeg(s: Seq<char>) -> bool {
    lower(s) == "mjpeg"@
}

/// Whether `s` names MJPEG, ignoring ASCII case.
pub fn names_mjpeg(s: &str) -> (r: bool)
    ensures
        r == is_mjpeg(s@),
{
    let lowered = crate::text::lower_chars(chars_of(s).as_slice());
    let m = chars_of("mjpeg");
    crate::text::chars_eq(lowered.as_slice(), m.as_slice())
}

/// The option pair views of a list of string pairs.
pub open spec fn pair_views(v: Seq<(String, String)>) -> Seq<(Seq<char>, Seq<char>)> {
    v.map_values(|p: (String, String)| (p.0@, p.1@))
}

/// The demuxer options for opening a device: frame size, frame rate, buffer
/// and probing sizes, then the requested pixel format (DirectShow selects
/// MJPEG by codec and anything else by pixel format; V4L2 takes either as
/// its input format, with any spelling of MJPEG normalised to "mjpeg").
pub open spec fn input_options_spec(
    width: u32,
    height: u32,
    fps: u32,
    pixel_format: Option<Seq<char>>,
    backend: CaptureBackend,
) -> Seq<(Seq<char>, Seq<char>)> {
    let base = seq![
        ("video_size"@, decimal(width as nat) + "x"@ + decimal(height as nat)),
        ("framerate"@, decimal(fps as nat)),
        ("rtbufsize"@, "16M"@),
        ("probesize"@, "5000000"@),
        ("analyzeduration"@, "1000000"@),
    ];
    match pixel_format {
        None => base,
        Some(f) => base.push(
            match backend {
                CaptureBackend::DirectShow => if is_mjpeg(f) {
                    ("vcodec"@, "mjpeg"@)
                } else {
                    ("pixel_format"@, f)
                },
                CaptureBackend::V4l2 => if is_mjpeg(f) {
                    ("input_format"@, "mjpeg"@)
                } else {
                    ("input_format"@, f)
                },
            },
        ),
    }
}

fn push_option(options: &mut Vec<(String, String)>, key: &str, value: String)
    ensures
        pair_views(final(options)@) == pair_views(old(options)@).push((key@, value@)),
{
    options.push((owned(key), value));
    assert(pair_views(options@) == pair_views(old(options)@).push((key@, value@)));
}

/// The demuxer options for opening a device (see [`input_options_spec`]).
pub fn capture_input_options(
    width: u32,
    height: u32,
    fps: u32,
    pixel_format: Option<&str>,
    backend: CaptureBackend,
) -> (options: Vec<(String, String)>)
    ensures
        pair_views(options@) == input_options_spec(
            width,
            height,
            fps,
            match pixel_format {
                Some(f) => Some(f@),
                None => None,
            },
            backend,
        ),
{
    let mut options: Vec<(String, String)> = Vec::new();
    let mut size = String::new();
    push_decimal(&mut size, width as u64);
    push_str(&mut size, "x");
    push_decimal(&mut size, height as u64);
    push_option(&mut options, "video_size", size);
    let mut rate = String::new();
    push_decimal(&mut rate, fps as u64);
    push_option(&mut options, "framerate", rate);
    push_option(&mut options, "rtbufsize", owned("16M"));
    push_option(&mut options, "probesize", owned("5000000"));
    push_option(&mut options, "analyzeduration", owned("1000000"));
    if let Some(format_name) = pixel_format {
        let mjpeg = names_mjpeg(format_name);
        match backend {
            CaptureBackend::DirectShow => {
                if mjpeg {
                    push_option(&mut options, "vcodec", owned("mjpeg"));
                } else {
                    push_option(&mut options, "pixel_format", owned(format_name));
                }
            },
            CaptureBackend::V4l2 => {
                if mjpeg {
                    push_option(&mut options, "input_format", owned("mjpeg"));
                } else {
                    push_option(&mut options, "input_format", owned(format_name));
                }
            },
        }
    }
    options
}

/// Law (the requested pixel format reaches the device): with a pixel format
/// there are six options, the sixth naming that format under the backend's
/// key — `input_format` for V4L2; `vcodec` for MJPEG and `pixel_format`
/// otherwise for DirectShow — with any spelling of MJPEG sent as "mjpeg".
/// Without one there are five options and none of those keys appears.
pub proof fn lemma_pixel_format_option(
    width: u32,
    height: u32,
    fps: u32,
    pixel_format: Option<Seq<char>>,
    backend: CaptureBackend,
)
    ensures
        ({
            let opts = input_options_spec(width, height, fps, pixel_format, backend);
            match pixel_format {
                Some(f) => {
                    &&& opts.len() == 6
                    &&& opts[5].1 == (if is_mjpeg(f) {
                        "mjpeg"@
                    } else {
                        f
                    })
                    &&& backend == CaptureBackend::V4l2 ==> opts[5].0 == "input_format"@
                    &&& backend == CaptureBackend::DirectShow ==> opts[5].0 == (if is_mjpeg(f) {
                        "vcodec"@
                    } else {
                        "pixel_format"@
                    })
                },
                None => {
                    &&& opts.len() == 5
                    &&& forall|i: int|
                        0 <= i < 5 ==> #[trigger] opts[i].0 != "input_format"@ && opts[i].0
                            != "vcodec"@ && opts[i].0 != "pixel_format"@
                },
            }
        }),
{
    let opts = input_options_spec(width, height, fps, pixel_format, backend);
    if pixel_format is None {
        reveal_strlit("video_size");
        reveal_strlit("framerate");
        reveal_strlit("rtbufsize");
        reveal_strlit("probesize");
        reveal_strlit("analyzeduration");
        reveal_strlit("input_format");
        reveal_strlit("vcodec");
        reveal_strlit("pixel_format");
        assert forall|i: int| 0 <= i < 5 implies #[trigger] opts[i].0 != "input_format"@ && opts[i].0
            != "vcodec"@ && opts[i].0 != "pixel_format"@ by {
            assert(opts[i].0.len() != "input_format"@.len() || opts[i].0[0] != "input_format"@[0]
                || opts[i].0[1] != "input_format"@[1]);
            assert(opts[i].0[0] != "vcodec"@[0] || opts[i].0.len() != "vcodec"@.len());
            assert(opts[i].0.len() != "pixel_format"@.len() || opts[i].0[0] != "pixel_format"@[0]);
        }
    }
}


/// Position of attempt (`tier`, `format`) in the whole sequence of attempts
/// when every tier tries `formats` formats.
pub open spec fn attempt_number(tier: nat, format: nat, formats: nat) -> nat {
    tier * formats + format
}

/// Law: each attempt handed out by [`CapturePlan::next_attempt`] is the one
/// right after the previous one in tier-major order, so every (tier, format)
/// pair is tried once, in order, before the plan runs out.
pub proof fn lemma_plan_counts_attempts(tier: nat, format: nat, formats: nat, tiers: nat)
    requires
        format < formats,
    ensures
        format + 1 < formats ==> attempt_number(tier, format + 1, formats) == attempt_number(
            tier,
            format,
            formats,
        ) + 1,
        format + 1 == formats ==> attempt_number(tier + 1, 0, formats) == attempt_number(
            tier,
            format,
            formats,
        ) + 1,
        tier < tiers <==> attempt_number(tier, format, formats) < tiers * formats,
{
    assert((tier + 1) * formats == tier * formats + formats) by (nonlinear_arith);
    if tier < tiers {
        assert((tier + 1) * formats <= tiers * formats) by (nonlinear_arith)
            requires
                tier + 1 <= tiers,
        ;
    } else {
        assert(tiers * formats <= tier * formats) by (nonlinear_arith)
            requires
                tiers <= tier,
        ;
    }
}

/// The index of the last occurrence of `c` in `s`.
pub open spec fn last_index_of(s: Seq<char>, c: char) -> Option<int>
    decreases s.len(),
{
    if s.len() == 0 {
        None
    } else if s.last() == c {
        Some(s.len() - 1)
    } else {
        last_index_of(s.drop_last(), c)
    }
}

/// The device node named by a V4L2 device label: the label itself when it is
/// a `/dev/` path, else the `/dev/` path between its last `(` and last `)`.
pub open spec fn v4l2_node(name: Seq<char>) -> Option<Seq<char>> {
    if has_prefix(name, "/dev/"@) {
        Some(name)
    } else {
        match (last_index_of(name, '('), last_index_of(name, ')')) {
            (Some(open), Some(close)) => {
                let candidate = name.subrange(open + 1, close);
                if has_prefix(candidate, "/dev/"@) {
                    Some(candidate)
                } else {
                    None
                }
            },
            _ => None,
        }
    }
}

/// The label can be read: when it is not a `/dev/` path and holds both
/// brackets, the last `)` comes after the last `(`.
pub open spec fn v4l2_label_ok(name: Seq<char>) -> bool {
    has_prefix(name, "/dev/"@) || match (last_index_of(name, '('), last_index_of(name, ')')) {
        (Some(open), Some(close)) => open < close,
        _ => true,
    }
}

proof fn lemma_last_index_bounds(s: Seq<char>, c: char)
    ensures
        last_index_of(s, c) matches Some(i) ==> 0 <= i < s.len() && s[i] == c,
    decreases s.len(),
{
    if s.len() > 0 && s.last() != c {
        lemma_last_index_bounds(s.drop_last(), c);
    }
}

fn find_last(v: &[char], c: char) -> (r: Option<usize>)
    ensures
        match r {
            Some(i) => last_index_of(v@, c) == Some(i as int),
            None => last_index_of(v@, c) is None,
        },
{
    let mut i: usize = v.len();
    assert(v@.take(v.len() as int) == v@);
    while i > 0
        invariant
            i <= v.len(),
            last_index_of(v@, c) == last_index_of(v@.take(i as int), c),
        decreases i,
    {
        assert(v@.take(i as int).drop_last() == v@.take(i as int - 1));
        if v[i - 1] == c {
            return Some(i - 1);
        }
        i -= 1;
    }
    None
}

/// The device node named by a V4L2 device label, when the label names one
/// (see [`v4l2_node`]).
pub fn v4l2_node_from_name(device_name: &str) -> (node: Option<String>)
    requires
        v4l2_label_ok(device_name@),
    ensures
        match node {
            Some(n) => v4l2_node(device_name@) == Some(n@),
            None => v4l2_node(device_name@) is None,
        },
{
    let name = chars_of(device_name);
    let prefix = chars_of("/dev/");
    if starts_with_chars(name.as_slice(), prefix.as_slice()) {
        return Some(owned(device_name));
    }
    let open = find_last(name.as_slice(), '(');
    let close = find_last(name.as_slice(), ')');
    match (open, close) {
        (Some(start), Some(end)) => {
            proof {
                lemma_last_index_bounds(name@, '(');
                lemma_last_index_bounds(name@, ')');
            }
            let mut candidate: Vec<char> = Vec::new();
            let mut k: usize = start + 1;
            while k < end
                invariant
                    start + 1 <= k <= end,
                    end < name@.len(),
                    candidate@ == name@.subrange(start + 1, k as int),
                decreases end - k,
            {
                candidate.push(name[k]);
                assert(name@.subrange(start + 1, k + 1) == name@.subrange(start + 1, k as int).push(
                    name@[k as int],
                ));
                k += 1;
            }
            if starts_with_chars(candidate.as_slice(), prefix.as_slice()) {
                Some(string_from_chars(candidate.as_slice()))
            } else {
                None
            }
        },
        _ => None,
    }
}


/// Whether a V4L2 device label can be read by [`v4l2_node_from_name`].
pub fn is_readable_v4l2_label(device_name: &str) -> (ok: bool)
    ensures
        ok == v4l2_label_ok(device_name@),
{
    let name = chars_of(device_name);
    if starts_with_chars(name.as_slice(), chars_of("/dev/").as_slice()) {
        return true;
    }
    match (find_last(name.as_slice(), '('), find_last(name.as_slice(), ')')) {
        (Some(open), Some(close)) => open < close,
        _ => true,
    }
}

/// Packet arrival intervals seen since the last decode summary.
#[derive(Debug, Clone, Copy, PartialEq, Eq)]
pub struct ArrivalStats {
    pub min_us: u64,
    pub max_us: u64,
    pub sum_us: u64,
    pub count: u64,
}

impl ArrivalStats {
    /// No interval seen yet.
    pub fn new() -> (s: Self)
        ensures
            s == (ArrivalStats { min_us: u64::MAX, max_us: 0, sum_us: 0, count: 0 }),
    {
        ArrivalStats { min_us: u64::MAX, max_us: 0, sum_us: 0, count: 0 }
    }

    /// Adds one interval between consecutive packets.
    pub fn record(&mut self, interval_us: u64)
        requires
            old(self).sum_us + interval_us <= u64::MAX,
            old(self).count < u64::MAX,
        ensures
            final(self).min_us == if interval_us < old(self).min_us {
                interval_us
            } else {
                old(self).min_us
            },
            final(self).max_us == if interval_us > old(self).max_us {
                interval_us
            } else {
                old(self).max_us
            },
            final(self).sum_us == old(self).sum_us + interval_us,
            final(self).count == old(self).count + 1,
    {
        if interval_us < self.min_us {
            self.min_us = interval_us;
        }
        if interval_us > self.max_us {
            self.max_us = interval_us;
        }
        self.sum_us = self.sum_us + interval_us;
        self.count = self.count + 1;
    }
}

/// Decode submissions that fail are logged for the first ten failures and
/// then every fiftieth.
pub fn should_log_packet_error(packet_errors: u32) -> (log: bool)
    ensures
        log == (packet_errors <= 10 || packet_errors % 50 == 0),
{
    packet_errors <= 10 || packet_errors % 50 == 0
}

/// Decoded frames in formats the renderer does not take are converted to
/// YUVJ422P above 60 fps (where the device sends MJPEG) and to NV12 otherwise.
pub fn conversion_target(requested_fps: u32) -> (format: PixelFormat)
    ensures
        format == if requested_fps > 60 {
            PixelFormat::Yuvj422p
        } else {
            PixelFormat::Nv12
        },
{
    if requested_fps > 60 {
        PixelFormat::Yuvj422p
    } else {
        PixelFormat::Nv12
    }
}

} // verus!
