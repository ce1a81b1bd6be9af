//! Filter graphs: how rotation and overlays are written for FFmpeg.

use vstd::prelude::*;

use crate::frontend::{OverlayPosition, OverlayTimezone};
use crate::overlay::{
    CompiledOverlayLayer, CompiledOverlayProfile, CompiledTextOverlayStyle,
    CompiledTimestampOverlay, CompiledWatermarkOverlay,
};
use crate::text;

verus! {

/// By how much the picture is turned.
#[derive(Debug, Clone, Copy, PartialEq, Eq, Structural)]
pub enum Rotation {
    NoTurn,
    Clockwise,
    HalfTurn,
    CounterClockwise,
}

/// A fraction.
#[derive(Debug, Clone, Copy, PartialEq, Eq, Structural)]
pub struct Rational {
    pub numerator: i32,
    pub denominator: i32,
}

// ---------------------------------------------------------------------------
// Rotation
// ---------------------------------------------------------------------------

/// The filter that turns the picture.
pub open spec fn rotation_filter(rotation: Rotation) -> Seq<char> {
    match rotation {
        Rotation::NoTurn => "null"@,
        Rotation::Clockwise => "transpose=clock"@,
        Rotation::HalfTurn => "hflip,vflip"@,
        Rotation::CounterClockwise => "transpose=cclock"@,
    }
}

/// The rotation by an angle in degrees, clockwise: a multiple of a quarter turn, less
/// than a whole turn either way.
pub open spec fn rotation_by(degrees: int) -> Option<Rotation> {
    if !(-360 < degrees < 360) || degrees % 90 != 0 {
        None
    } else if degrees % 360 == 0 {
        Some(Rotation::NoTurn)
    } else if degrees % 360 == 90 {
        Some(Rotation::Clockwise)
    } else if degrees % 360 == 180 {
        Some(Rotation::HalfTurn)
    } else {
        Some(Rotation::CounterClockwise)
    }
}

/// The angle that a profile asks for; one that names none asks for none.
pub open spec fn degrees_of(rotation: Option<i32>) -> int {
    match rotation {
        Some(degrees) => degrees as int,
        None => 0,
    }
}

impl Rotation {
    /// The filter that turns the picture.
    pub fn filter_spec(self) -> (r: &'static str)
        ensures
            r@ == rotation_filter(self),
    {
        match self {
            Rotation::NoTurn => "null",
            Rotation::Clockwise => "transpose=clock",
            Rotation::HalfTurn => "hflip,vflip",
            Rotation::CounterClockwise => "transpose=cclock",
        }
    }
}

/// The rotation that a profile asks for.
pub fn normalize_rotation(rotation: Option<i32>) -> (r: Result<Rotation, String>)
    ensures
        match r {
            Ok(turn) => rotation_by(degrees_of(rotation)) == Some(turn),
            Err(message) => rotation_by(degrees_of(rotation)) is None && message@
                == "unsupported rotation '"@ + text::signed_decimal(degrees_of(rotation))
                + "'; supported values are 0, 90, 180, 270, -90, -180, and -270"@,
        },
{
    let degrees: i32 = match rotation {
        Some(degrees) => degrees,
        None => 0,
    };
    if degrees == 0 {
        Ok(Rotation::NoTurn)
    } else if degrees == 90 || degrees == -270 {
        Ok(Rotation::Clockwise)
    } else if degrees == 180 || degrees == -180 {
        Ok(Rotation::HalfTurn)
    } else if degrees == 270 || degrees == -90 {
        Ok(Rotation::CounterClockwise)
    } else {
        Err(
            text::join3(
                "unsupported rotation '",
                text::signed_decimal_string(degrees as i64).as_str(),
                "'; supported values are 0, 90, 180, 270, -90, -180, and -270",
            ),
        )
    }
}

/// Whether a rotation swaps width and height.
pub open spec fn is_quarter_turn(rotation: Rotation) -> bool {
    rotation == Rotation::Clockwise || rotation == Rotation::CounterClockwise
}

/// The size of the picture after it was turned.
pub fn rotated_dimensions(width: u32, height: u32, rotation: Rotation) -> (r: (u32, u32))
    ensures
        r == (if is_quarter_turn(rotation) {
            (height, width)
        } else {
            (width, height)
        }),
{
    match rotation {
        Rotation::Clockwise => (height, width),
        Rotation::CounterClockwise => (height, width),
        Rotation::NoTurn => (width, height),
        Rotation::HalfTurn => (width, height),
    }
}

/// A fraction that both parts of are positive; any other is taken for 1.
pub open spec fn sane(value: Rational) -> Rational {
    if value.numerator <= 0 || value.denominator <= 0 {
        Rational { numerator: 1, denominator: 1 }
    } else {
        value
    }
}

/// The given fraction if both its parts are positive, and else 1.
pub fn sanitize_rational(value: Rational) -> (r: Rational)
    ensures
        r == sane(value),
{
    if value.numerator <= 0 || value.denominator <= 0 {
        Rational { numerator: 1, denominator: 1 }
    } else {
        value
    }
}

/// The description of the frames that enter the graph.
pub open spec fn source_args(
    width: u32,
    height: u32,
    pixel_format: Seq<char>,
    time_base: Rational,
    aspect_ratio: Rational,
) -> Seq<char> {
    "video_size="@ + text::decimal(width as nat) + "x"@ + text::decimal(height as nat)
        + ":pix_fmt="@ + pixel_format + ":time_base="@ + text::signed_decimal(
        time_base.numerator as int,
    ) + "/"@ + text::signed_decimal(time_base.denominator as int) + ":pixel_aspect="@
        + text::signed_decimal(sane(aspect_ratio).numerator as int) + "/"@ + text::signed_decimal(
        sane(aspect_ratio).denominator as int,
    )
}

/// Describes the frames that enter the graph; frames of an unnamed format are taken
/// for `yuv420p`.
pub fn buffer_source_args(
    width: u32,
    height: u32,
    pixel_format: Option<&str>,
    time_base: Rational,
    aspect_ratio: Rational,
) -> (r: String)
    ensures
        r@ == source_args(
            width,
            height,
            match pixel_format {
                Some(name) => name@,
                None => "yuv420p"@,
            },
            time_base,
            aspect_ratio,
        ),
{
    let aspect = sanitize_rational(aspect_ratio);
    let format = match pixel_format {
        Some(name) => name,
        None => "yuv420p",
    };
    let mut out = "video_size=".to_owned();
    out.append(text::decimal_string(width as u64).as_str());
    out.append("x");
    out.append(text::decimal_string(height as u64).as_str());
    out.append(":pix_fmt=");
    out.append(format);
    out.append(":time_base=");
    out.append(text::signed_decimal_string(time_base.numerator as i64).as_str());
    out.append("/");
    out.append(text::signed_decimal_string(time_base.denominator as i64).as_str());
    out.append(":pixel_aspect=");
    out.append(text::signed_decimal_string(aspect.numerator as i64).as_str());
    out.append("/");
    out.append(text::signed_decimal_string(aspect.denominator as i64).as_str());
    out
}

// ---------------------------------------------------------------------------
// Escaping
// ---------------------------------------------------------------------------

/// How a character of an option's value is written.
pub open spec fn value_char(c: char) -> Seq<char> {
    if c == '\\' || c == ':' || c == '\'' {
        seq!['\\', c]
    } else {
        seq![c]
    }
}

/// How a character of a drawn text is written.
pub open spec fn drawn_char(c: char) -> Seq<char> {
    if c == '%' {
        seq!['\\', c]
    } else {
        value_char(c)
    }
}

/// How a character of the format inside an expansion is written. It is unescaped
/// twice before it is used.
pub open spec fn format_char(c: char) -> Seq<char> {
    if c == '\\' {
        seq!['\\', '\\', '\\', '\\']
    } else if c == ':' {
        seq!['\\', '\\', '\\', ':']
    } else if c == '\'' {
        seq!['\\', '\'']
    } else {
        seq![c]
    }
}

/// The value of an option, escaped.
pub open spec fn escaped_value(s: Seq<char>) -> Seq<char>
    decreases s.len(),
{
    if s.len() == 0 {
        Seq::empty()
    } else {
        escaped_value(s.drop_last()) + value_char(s.last())
    }
}

/// A drawn text, escaped.
pub open spec fn escaped_text(s: Seq<char>) -> Seq<char>
    decreases s.len(),
{
    if s.len() == 0 {
        Seq::empty()
    } else {
        escaped_text(s.drop_last()) + drawn_char(s.last())
    }
}

/// The format inside an expansion, escaped.
pub open spec fn escaped_format(s: Seq<char>) -> Seq<char>
    decreases s.len(),
{
    if s.len() == 0 {
        Seq::empty()
    } else {
        escaped_format(s.drop_last()) + format_char(s.last())
    }
}

/// Escapes a path.
pub fn escape_filter_path(value: &str) -> (r: String)
    ensures
        r@ == escaped_value(value@),
{
    escape_filter_value(value)
}

/// Escapes the value of an option.
pub fn escape_filter_value(value: &str) -> (r: String)
    ensures
        r@ == escaped_value(value@),
{
    let chars = text::chars_of(value);
    let mut out = String::new();
    let mut i: usize = 0;
    while i < chars.len()
        invariant
            i <= chars@.len(),
            chars@ == value@,
            out@ == escaped_value(value@.take(i as int)),
        decreases chars@.len() - i,
    {
        assert(value@.take(i + 1).drop_last() == value@.take(i as int));
        let c = chars[i];
        let ghost before = out@;
        if c == '\\' || c == ':' || c == '\'' {
            out.push('\\');
        }
        out.push(c);
        assert(out@ == before + value_char(c));
        i += 1;
    }
    assert(value@.take(i as int) == value@);
    out
}

/// Escapes a drawn text.
pub fn escape_drawtext_text(value: &str) -> (r: String)
    ensures
        r@ == escaped_text(value@),
{
    let chars = text::chars_of(value);
    let mut out = String::new();
    let mut i: usize = 0;
    while i < chars.len()
        invariant
            i <= chars@.len(),
            chars@ == value@,
            out@ == escaped_text(value@.take(i as int)),
        decreases chars@.len() - i,
    {
        assert(value@.take(i + 1).drop_last() == value@.take(i as int));
        let c = chars[i];
        let ghost before = out@;
        if c == '\\' || c == ':' || c == '\'' || c == '%' {
            out.push('\\');
        }
        out.push(c);
        assert(out@ == before + drawn_char(c));
        i += 1;
    }
    assert(value@.take(i as int) == value@);
    out
}

/// Escapes the format inside an expansion.
pub fn escape_drawtext_expansion_format(value: &str) -> (r: String)
    ensures
        r@ == escaped_format(value@),
{
    let chars = text::chars_of(value);
    let mut out = String::new();
    let mut i: usize = 0;
    while i < chars.len()
        invariant
            i <= chars@.len(),
            chars@ == value@,
            out@ == escaped_format(value@.take(i as int)),
        decreases chars@.len() - i,
    {
        assert(value@.take(i + 1).drop_last() == value@.take(i as int));
        let c = chars[i];
        let ghost before = out@;
        if c == '\\' || c == ':' {
            out.push('\\');
            out.push('\\');
            out.push('\\');
        } else if c == '\'' {
            out.push('\\');
        }
        out.push(c);
        assert(out@ == before + format_char(c));
        i += 1;
    }
    assert(value@.take(i as int) == value@);
    out
}

/// A percentage as a fraction with two decimals.
pub open spec fn percent_as_decimal(value: u8) -> Seq<char> {
    text::decimal(value as nat / 100) + "."@ + seq![
        text::digit_char(value as nat / 10 % 10),
        text::digit_char(value as nat % 10),
    ]
}

/// Writes a percentage as a fraction with two decimals.
pub fn alpha_percent_to_decimal(value: u8) -> (r: String)
    ensures
        r@ == percent_as_decimal(value),
{
    let mut out = text::decimal_string((value / 100) as u64);
    out.append(".");
    out.push((value / 10 % 10 + 48) as char);
    out.push((value % 10 + 48) as char);
    out
}

// ---------------------------------------------------------------------------
// Layers
// ---------------------------------------------------------------------------

/// The font that texts are drawn in.
pub open spec fn font_path() -> Seq<char> {
    "/usr/share/fonts/truetype/dejavu/DejaVuSans.ttf"@
}

/// The path of the font that texts are drawn in.
pub fn default_draw_text_font_path() -> (r: &'static str)
    ensures
        r@ == font_path(),
{
    "/usr/share/fonts/truetype/dejavu/DejaVuSans.ttf"
}

pub open spec fn at_left(position: OverlayPosition) -> bool {
    position == OverlayPosition::TopLeft || position == OverlayPosition::BottomLeft
}

pub open spec fn at_top(position: OverlayPosition) -> bool {
    position == OverlayPosition::TopLeft || position == OverlayPosition::TopRight
}

/// Where a text is drawn, from the left.
pub open spec fn text_x(position: OverlayPosition, margin: u32) -> Seq<char> {
    if at_left(position) {
        text::decimal(margin as nat)
    } else {
        "w-text_w-"@ + text::decimal(margin as nat)
    }
}

/// Where a text is drawn, from the top.
pub open spec fn text_y(position: OverlayPosition, margin: u32) -> Seq<char> {
    if at_top(position) {
        text::decimal(margin as nat)
    } else {
        "h-text_h-"@ + text::decimal(margin as nat)
    }
}

/// Where a picture is drawn.
pub open spec fn picture_position(position: OverlayPosition, margin: u32) -> Seq<char> {
    let m = text::decimal(margin as nat);
    match position {
        OverlayPosition::TopLeft => "x="@ + m + ":y="@ + m,
        OverlayPosition::TopRight => "x=W-w-"@ + m + ":y="@ + m,
        OverlayPosition::BottomLeft => "x="@ + m + ":y=H-h-"@ + m,
        OverlayPosition::BottomRight => "x=W-w-"@ + m + ":y=H-h-"@ + m,
    }
}

/// The filter that draws a text, which is already escaped.
pub open spec fn drawtext(escaped: Seq<char>, style: CompiledTextOverlayStyle) -> Seq<char> {
    "drawtext=fontfile='"@ + escaped_value(font_path()) + "':text='"@ + escaped + "':x="@ + text_x(
        style.position,
        style.margin,
    ) + ":y="@ + text_y(style.position, style.margin) + ":fontsize="@ + text::decimal(
        style.font_size as nat,
    ) + ":fontcolor="@ + escaped_value(style.font_color@) + ":box=1:boxcolor="@ + escaped_value(
        style.background_color@,
    ) + "@"@ + percent_as_decimal(style.background_alpha) + ":boxborderw="@ + text::decimal(
        style.padding as nat,
    )
}

/// The function that gives the time in a time zone.
pub open spec fn time_function(timezone: OverlayTimezone) -> Seq<char> {
    match timezone {
        OverlayTimezone::Utc => "gmtime"@,
        OverlayTimezone::Local => "localtime"@,
    }
}

/// The filter that draws the time.
pub open spec fn timestamp_filter(timestamp: CompiledTimestampOverlay) -> Seq<char> {
    drawtext(
        "%{"@ + time_function(timestamp.timezone) + "\\:"@ + escaped_format(timestamp.format@)
            + "}"@,
        timestamp.style,
    )
}

/// The filters that read a picture, and make it smaller and fainter as asked.
pub open spec fn watermark_filters(watermark: CompiledWatermarkOverlay) -> Seq<char> {
    let source = "movie='"@ + escaped_value(watermark.image_path@) + "'"@;
    let scaled = match watermark.max_width_px {
        Some(width) => source + ",scale=w="@ + text::decimal(width as nat)
            + ":h=-1:force_original_aspect_ratio=decrease"@,
        None => source,
    };
    if watermark.opacity < 100 {
        scaled + ",format=rgba"@ + ",colorchannelmixer=aa="@ + percent_as_decimal(
            watermark.opacity,
        )
    } else {
        scaled
    }
}

/// The name of the picture after a number of layers.
pub open spec fn stage(index: nat) -> Seq<char> {
    "stage"@ + text::decimal(index)
}

/// One layer of the graph, on top of those before it.
pub open spec fn layer_filters(index: nat, layer: CompiledOverlayLayer) -> Seq<char> {
    match layer {
        CompiledOverlayLayer::Timestamp(timestamp) => "["@ + stage(index) + "]"@
            + timestamp_filter(timestamp) + "["@ + stage(index + 1) + "]"@,
        CompiledOverlayLayer::Text(drawn) => "["@ + stage(index) + "]"@ + drawtext(
            escaped_text(drawn.text@),
            drawn.style,
        ) + "["@ + stage(index + 1) + "]"@,
        CompiledOverlayLayer::Watermark(watermark) => watermark_filters(watermark) + "[wm"@
            + text::decimal(index) + "];["@ + stage(index) + "][wm"@ + text::decimal(index)
            + "]overlay="@ + picture_position(watermark.position, watermark.margin) + "["@ + stage(
            index + 1,
        ) + "]"@,
    }
}

/// The first layers of the graph, each behind a semicolon.
pub open spec fn layers_filters(layers: Seq<CompiledOverlayLayer>) -> Seq<char>
    decreases layers.len(),
{
    if layers.len() == 0 {
        Seq::empty()
    } else {
        layers_filters(layers.drop_last()) + ";"@ + layer_filters(
            (layers.len() - 1) as nat,
            layers.last(),
        )
    }
}

/// The whole graph: the picture is turned, then the layers are drawn over it in their
/// order.
pub open spec fn filter_graph(
    rotation: Rotation,
    overlay: Option<CompiledOverlayProfile>,
) -> Seq<char> {
    match overlay {
        None => "[in]"@ + rotation_filter(rotation) + "[out]"@,
        Some(overlay) => "[in]"@ + rotation_filter(rotation) + "[stage0]"@ + layers_filters(
            overlay.layers@,
        ) + ";["@ + stage(overlay.layers@.len()) + "]null[out]"@,
    }
}

/// Where a text is drawn.
pub fn drawtext_position_expr(position: OverlayPosition, margin: u32) -> (r: (String, String))
    ensures
        r.0@ == text_x(position, margin),
        r.1@ == text_y(position, margin),
{
    let near = text::decimal_string(margin as u64);
    let right = text::join2("w-text_w-", near.as_str());
    let bottom = text::join2("h-text_h-", near.as_str());
    match position {
        OverlayPosition::TopLeft => (near.clone(), near),
        OverlayPosition::TopRight => (right, near),
        OverlayPosition::BottomLeft => (near, bottom),
        OverlayPosition::BottomRight => (right, bottom),
    }
}

/// Where a picture is drawn.
pub fn overlay_position_expr(position: OverlayPosition, margin: u32) -> (r: String)
    ensures
        r@ == picture_position(position, margin),
{
    let m = text::decimal_string(margin as u64);
    let (x, y) = match position {
        OverlayPosition::TopLeft => ("x=", ":y="),
        OverlayPosition::TopRight => ("x=W-w-", ":y="),
        OverlayPosition::BottomLeft => ("x=", ":y=H-h-"),
        OverlayPosition::BottomRight => ("x=W-w-", ":y=H-h-"),
    };
    let mut out = text::join3(x, m.as_str(), y);
    out.append(m.as_str());
    out
}

/// The filter that draws a text, which is already escaped.
pub fn drawtext_filter(text: &str, style: &CompiledTextOverlayStyle) -> (r: Result<
    String,
    String,
>)
    ensures
        r matches Ok(filter) && filter@ == drawtext(text@, *style),
{
    let (x, y) = drawtext_position_expr(style.position, style.margin);
    let mut out = "drawtext=fontfile='".to_owned();
    out.append(escape_filter_path(default_draw_text_font_path()).as_str());
    out.append("':text='");
    out.append(text);
    out.append("':x=");
    out.append(x.as_str());
    out.append(":y=");
    out.append(y.as_str());
    out.append(":fontsize=");
    out.append(text::decimal_string(style.font_size as u64).as_str());
    out.append(":fontcolor=");
    out.append(escape_filter_value(style.font_color.as_str()).as_str());
    out.append(":box=1:boxcolor=");
    out.append(escape_filter_value(style.background_color.as_str()).as_str());
    out.append("@");
    out.append(alpha_percent_to_decimal(style.background_alpha).as_str());
    out.append(":boxborderw=");
    out.append(text::decimal_string(style.padding as u64).as_str());
    Ok(out)
}

/// The filter that draws the time.
pub fn drawtext_filter_for_timestamp(timestamp: &CompiledTimestampOverlay) -> (r: Result<
    String,
    String,
>)
    ensures
        r matches Ok(filter) && filter@ == timestamp_filter(*timestamp),
{
    let function = match timestamp.timezone {
        OverlayTimezone::Utc => "gmtime",
        OverlayTimezone::Local => "localtime",
    };
    let format = escape_drawtext_expansion_format(timestamp.format.as_str());
    let text = text::join5("%{", function, "\\:", format.as_str(), "}");
    drawtext_filter(text.as_str(), &timestamp.style)
}

/// The filter that draws a text.
pub fn drawtext_filter_for_text(text: &str, style: &CompiledTextOverlayStyle) -> (r: Result<
    String,
    String,
>)
    ensures
        r matches Ok(filter) && filter@ == drawtext(escaped_text(text@), *style),
{
    drawtext_filter(escape_drawtext_text(text).as_str(), style)
}

/// The filters that read a picture, and make it smaller and fainter as asked.
pub fn watermark_filter_chain(watermark: &CompiledWatermarkOverlay) -> (r: Result<String, String>)
    ensures
        r matches Ok(filters) && filters@ == watermark_filters(*watermark),
{
    let mut out = text::join3(
        "movie='",
        escape_filter_path(watermark.image_path.as_str()).as_str(),
        "'",
    );
    if let Some(width) = watermark.max_width_px {
        out.append(",scale=w=");
        out.append(text::decimal_string(width as u64).as_str());
        out.append(":h=-1:force_original_aspect_ratio=decrease");
    }
    if watermark.opacity < 100 {
        out.append(",format=rgba");
        out.append(",colorchannelmixer=aa=");
        out.append(alpha_percent_to_decimal(watermark.opacity).as_str());
    }
    Ok(out)
}

fn stage_label(index: usize) -> (r: String)
    ensures
        r@ == stage(index as nat),
{
    text::join2("stage", text::decimal_string(index as u64).as_str())
}

/// One layer of the graph, on top of those before it.
fn layer_filter_spec(index: usize, layer: &CompiledOverlayLayer) -> (r: Result<String, String>)
    requires
        index < usize::MAX,
    ensures
        r matches Ok(filters) && filters@ == layer_filters(index as nat, *layer),
{
    let current = stage_label(index);
    let next = stage_label(index + 1);
    let drawn = match layer {
        CompiledOverlayLayer::Timestamp(timestamp) => drawtext_filter_for_timestamp(timestamp),
        CompiledOverlayLayer::Text(drawn) => drawtext_filter_for_text(
            drawn.text.as_str(),
            &drawn.style,
        ),
        CompiledOverlayLayer::Watermark(watermark) => {
            let mut out = match watermark_filter_chain(watermark) {
                Ok(filters) => filters,
                Err(message) => {
                    return Err(message);
                },
            };
            let number = text::decimal_string(index as u64);
            out.append("[wm");
            out.append(number.as_str());
            out.append("];[");
            out.append(current.as_str());
            out.append("][wm");
            out.append(number.as_str());
            out.append("]overlay=");
            out.append(overlay_position_expr(watermark.position, watermark.margin).as_str());
            out.append("[");
            out.append(next.as_str());
            out.append("]");
            return Ok(out);
        },
    };
    match drawn {
        Ok(filter) => {
            let mut out = text::join5("[", current.as_str(), "]", filter.as_str(), "[");
            out.append(next.as_str());
            out.append("]");
            Ok(out)
        },
        Err(message) => Err(message),
    }
}

/// Writes the graph of a pipeline.
pub fn build_filter_spec(rotation: Rotation, overlay: Option<&CompiledOverlayProfile>) -> (r:
    Result<String, String>)
    ensures
        r matches Ok(graph) && graph@ == filter_graph(
            rotation,
            match overlay {
                Some(overlay) => Some(*overlay),
                None => None,
            },
        ),
{
    let overlay = match overlay {
        None => {
            return Ok(text::join3("[in]", rotation.filter_spec(), "[out]"));
        },
        Some(overlay) => overlay,
    };
    let mut out = text::join3("[in]", rotation.filter_spec(), "[stage0]");
    let ghost head = out@;
    let mut index: usize = 0;
    assert(overlay.layers@.take(0) == Seq::<CompiledOverlayLayer>::empty());
    assert(head + layers_filters(overlay.layers@.take(0)) == head);
    while index < overlay.layers.len()
        invariant
            index <= overlay.layers@.len(),
            out@ == head + layers_filters(overlay.layers@.take(index as int)),
        decreases overlay.layers@.len() - index,
    {
        match layer_filter_spec(index, &overlay.layers[index]) {
            Ok(filters) => {
                out.append(";");
                out.append(filters.as_str());
            },
            Err(message) => {
                return Err(message);
            },
        }
        proof {
            let taken = overlay.layers@.take(index + 1);
            assert(taken.drop_last() == overlay.layers@.take(index as int));
            assert(out@ == head + layers_filters(taken));
        }
        index += 1;
    }
    assert(overlay.layers@.take(index as int) == overlay.layers@);
    out.append(";[");
    out.append(stage_label(index).as_str());
    out.append("]null[out]");
    Ok(out)
}

// ---------------------------------------------------------------------------
// Laws
// ---------------------------------------------------------------------------

/// A text with one level of escaping taken off: a backslash makes the character
/// behind it stand for itself.
pub open spec fn unescaped(s: Seq<char>) -> Seq<char>
    decreases s.len(),
{
    if s.len() == 0 {
        Seq::empty()
    } else if s[0] == '\\' && s.len() >= 2 {
        seq![s[1]] + unescaped(s.skip(2))
    } else {
        seq![s[0]] + unescaped(s.drop_first())
    }
}

/// One character and its escape are taken off a text at a time.
proof fn lemma_unescape_pair(c: char, rest: Seq<char>)
    ensures
        unescaped(seq!['\\', c] + rest) == seq![c] + unescaped(rest),
        c != '\\' ==> unescaped(seq![c] + rest) == seq![c] + unescaped(rest),
{
    let pair = seq!['\\', c] + rest;
    assert(pair.skip(2) == rest);
    let single = seq![c] + rest;
    assert(single.drop_first() == rest);
}

proof fn lemma_value_unescapes(s: Seq<char>, rest: Seq<char>)
    ensures
        unescaped(escaped_value(s) + rest) == s + unescaped(rest),
    decreases s.len(),
{
    if s.len() == 0 {
        assert(escaped_value(s) + rest == rest);
        assert(s + unescaped(rest) == unescaped(rest));
    } else {
        let front = s.drop_last();
        let c = s.last();
        lemma_value_unescapes(front, value_char(c) + rest);
        lemma_unescape_pair(c, rest);
        assert(escaped_value(s) + rest == escaped_value(front) + (value_char(c) + rest));
        assert(front + (seq![c] + unescaped(rest)) == s + unescaped(rest));
    }
}

/// An escaped value stands for the value.
pub proof fn escaped_values_read_back(s: Seq<char>)
    ensures
        unescaped(escaped_value(s)) == s,
{
    lemma_value_unescapes(s, Seq::empty());
    assert(escaped_value(s) + Seq::<char>::empty() == escaped_value(s));
    assert(s + Seq::<char>::empty() == s);
}

proof fn lemma_text_unescapes(s: Seq<char>, rest: Seq<char>)
    ensures
        unescaped(escaped_text(s) + rest) == s + unescaped(rest),
    decreases s.len(),
{
    if s.len() == 0 {
        assert(escaped_text(s) + rest == rest);
        assert(s + unescaped(rest) == unescaped(rest));
    } else {
        let front = s.drop_last();
        let c = s.last();
        lemma_text_unescapes(front, drawn_char(c) + rest);
        lemma_unescape_pair(c, rest);
        assert(escaped_text(s) + rest == escaped_text(front) + (drawn_char(c) + rest));
        assert(front + (seq![c] + unescaped(rest)) == s + unescaped(rest));
    }
}

/// An escaped text stands for the text.
pub proof fn escaped_texts_read_back(s: Seq<char>)
    ensures
        unescaped(escaped_text(s)) == s,
{
    lemma_text_unescapes(s, Seq::empty());
    assert(escaped_text(s) + Seq::<char>::empty() == escaped_text(s));
    assert(s + Seq::<char>::empty() == s);
}

/// A character of a format after one level of escaping was taken off.
spec fn half_escaped_char(c: char) -> Seq<char> {
    if c == '\\' || c == ':' {
        seq!['\\', c]
    } else {
        seq![c]
    }
}

spec fn half_escaped(s: Seq<char>) -> Seq<char>
    decreases s.len(),
{
    if s.len() == 0 {
        Seq::empty()
    } else {
        half_escaped(s.drop_last()) + half_escaped_char(s.last())
    }
}

proof fn lemma_format_unescapes_once(s: Seq<char>, rest: Seq<char>)
    ensures
        unescaped(escaped_format(s) + rest) == half_escaped(s) + unescaped(rest),
    decreases s.len(),
{
    if s.len() == 0 {
        assert(escaped_format(s) + rest == rest);
        assert(half_escaped(s) + unescaped(rest) == unescaped(rest));
    } else {
        let front = s.drop_last();
        let c = s.last();
        lemma_format_unescapes_once(front, format_char(c) + rest);
        assert(escaped_format(s) + rest == escaped_format(front) + (format_char(c) + rest));
        lemma_unescape_pair(c, rest);
        if c == '\\' || c == ':' {
            lemma_unescape_pair('\\', seq!['\\', c] + rest);
            assert(format_char(c) + rest == seq!['\\', '\\'] + (seq!['\\', c] + rest));
            assert(seq!['\\'] + (seq![c] + unescaped(rest)) == half_escaped_char(c) + unescaped(
                rest,
            ));
        }
        assert(unescaped(format_char(c) + rest) == half_escaped_char(c) + unescaped(rest));
        assert(half_escaped(front) + (half_escaped_char(c) + unescaped(rest)) == half_escaped(s)
            + unescaped(rest));
    }
}

proof fn lemma_half_escaped_unescapes(s: Seq<char>, rest: Seq<char>)
    ensures
        unescaped(half_escaped(s) + rest) == s + unescaped(rest),
    decreases s.len(),
{
    if s.len() == 0 {
        assert(half_escaped(s) + rest == rest);
        assert(s + unescaped(rest) == unescaped(rest));
    } else {
        let front = s.drop_last();
        let c = s.last();
        lemma_half_escaped_unescapes(front, half_escaped_char(c) + rest);
        lemma_unescape_pair(c, rest);
        assert(half_escaped(s) + rest == half_escaped(front) + (half_escaped_char(c) + rest));
        assert(front + (seq![c] + unescaped(rest)) == s + unescaped(rest));
    }
}

/// An escaped format stands for the format after both levels of escaping were taken
/// off: that of the option, and that of the expansion inside it.
pub proof fn escaped_formats_read_back(s: Seq<char>)
    ensures
        unescaped(unescaped(escaped_format(s))) == s,
{
    let nothing = Seq::<char>::empty();
    lemma_format_unescapes_once(s, nothing);
    lemma_half_escaped_unescapes(s, nothing);
    assert(escaped_format(s) + nothing == escaped_format(s));
    assert(half_escaped(s) + nothing == half_escaped(s));
    assert(s + nothing == s);
}

/// Whether every quote in a text stands behind a backslash.
pub open spec fn quotes_escaped(s: Seq<char>) -> bool {
    forall|i: int| 0 <= i < s.len() && #[trigger] s[i] == '\'' ==> i > 0 && s[i - 1] == '\\'
}

/// No quote in an escaped value or text can end the option it stands in.
pub proof fn escaping_leaves_no_bare_quote(s: Seq<char>)
    ensures
        quotes_escaped(escaped_value(s)),
        quotes_escaped(escaped_text(s)),
        quotes_escaped(escaped_format(s)),
    decreases s.len(),
{
    if s.len() > 0 {
        let front = s.drop_last();
        let c = s.last();
        escaping_leaves_no_bare_quote(front);
        lemma_quotes_stay_escaped(escaped_value(front), value_char(c));
        lemma_quotes_stay_escaped(escaped_text(front), drawn_char(c));
        lemma_quotes_stay_escaped(escaped_format(front), format_char(c));
    }
}

proof fn lemma_quotes_stay_escaped(a: Seq<char>, b: Seq<char>)
    requires
        quotes_escaped(a),
        quotes_escaped(b),
    ensures
        quotes_escaped(a + b),
{
    let both = a + b;
    assert forall|i: int| 0 <= i < both.len() && #[trigger] both[i] == '\'' implies i > 0 && both[i
        - 1] == '\\' by {
        if i < a.len() {
            assert(a[i] == both[i]);
            assert(both[i - 1] == a[i - 1]);
        } else {
            assert(b[i - a.len()] == both[i]);
            assert(both[i - 1] == b[i - a.len() - 1]);
        }
    }
}

/// The layers are written in their order: those of the lower ones stand in front.
pub proof fn lower_layers_are_written_first(layers: Seq<CompiledOverlayLayer>, count: int)
    requires
        0 <= count <= layers.len(),
    ensures
        text::has_prefix(layers_filters(layers), layers_filters(layers.take(count))),
    decreases layers.len() - count,
{
    let lower = layers_filters(layers.take(count));
    if count == layers.len() {
        assert(layers.take(count) == layers);
        assert(lower.subrange(0, lower.len() as int) == lower);
    } else {
        let more = layers.take(count + 1);
        lower_layers_are_written_first(layers, count + 1);
        assert(more.drop_last() == layers.take(count));
        let whole = layers_filters(layers);
        let upper = layers_filters(more);
        assert(upper.subrange(0, lower.len() as int) == lower);
        assert(whole.subrange(0, upper.len() as int) == upper);
        assert(whole.subrange(0, lower.len() as int) == lower) by {
            assert forall|i: int| 0 <= i < lower.len() implies whole[i] == lower[i] by {
                assert(whole.subrange(0, upper.len() as int)[i] == upper[i]);
                assert(upper.subrange(0, lower.len() as int)[i] == lower[i]);
            }
        }
    }
}

/// An angle and the same angle the other way round mean the same rotation.
pub proof fn whole_turns_do_not_matter(degrees: int)
    requires
        0 < degrees < 360,
    ensures
        rotation_by(degrees) == rotation_by(degrees - 360),
{
}

/// A pixel: how wide and how high its picture is, and how far it lies from the left and
/// from the top.
pub struct Pixel {
    pub width: int,
    pub height: int,
    pub x: int,
    pub y: int,
}

/// Where a pixel comes to lie when its picture is turned clockwise by a quarter.
pub open spec fn turned(pixel: Pixel) -> Pixel {
    Pixel {
        width: pixel.height,
        height: pixel.width,
        x: pixel.height - 1 - pixel.y,
        y: pixel.x,
    }
}

/// Where a pixel comes to lie after some quarter turns clockwise.
pub open spec fn turned_times(pixel: Pixel, count: nat) -> Pixel
    decreases count,
{
    if count == 0 {
        pixel
    } else {
        turned(turned_times(pixel, (count - 1) as nat))
    }
}

/// Where one filter moves a pixel, of the filters that only move pixels.
pub open spec fn moved_once(filter: Seq<char>, pixel: Pixel) -> Option<Pixel> {
    if filter == "null"@ {
        Some(pixel)
    } else if filter == "hflip"@ {
        Some(Pixel { x: pixel.width - 1 - pixel.x, ..pixel })
    } else if filter == "vflip"@ {
        Some(Pixel { y: pixel.height - 1 - pixel.y, ..pixel })
    } else if filter == "transpose=clock"@ {
        Some(
            Pixel {
                width: pixel.height,
                height: pixel.width,
                x: pixel.height - 1 - pixel.y,
                y: pixel.x,
            },
        )
    } else if filter == "transpose=cclock"@ {
        Some(
            Pixel {
                width: pixel.height,
                height: pixel.width,
                x: pixel.y,
                y: pixel.width - 1 - pixel.x,
            },
        )
    } else {
        None
    }
}

/// How many characters stand in front of the first comma.
pub open spec fn until_comma(filters: Seq<char>) -> nat
    decreases filters.len(),
{
    if filters.len() == 0 || filters[0] == ',' {
        0
    } else {
        1 + until_comma(filters.drop_first())
    }
}

/// Where filters with commas between them move a pixel, one after the other.
pub open spec fn moved(filters: Seq<char>, pixel: Pixel) -> Option<Pixel>
    decreases filters.len(),
{
    let end = until_comma(filters) as int;
    if end >= filters.len() {
        moved_once(filters, pixel)
    } else {
        match moved_once(filters.take(end), pixel) {
            Some(next) => moved(filters.skip(end + 1), next),
            None => None,
        }
    }
}

proof fn lemma_until_comma(front: Seq<char>, rest: Seq<char>)
    requires
        forall|i: int| 0 <= i < front.len() ==> front[i] != ',',
    ensures
        until_comma(front) == front.len(),
        until_comma(front + seq![','] + rest) == front.len(),
    decreases front.len(),
{
    let whole = front + seq![','] + rest;
    if front.len() > 0 {
        lemma_until_comma(front.drop_first(), rest);
        assert(whole.drop_first() == front.drop_first() + seq![','] + rest);
        assert(whole[0] == front[0]);
    } else {
        assert(whole[0] == ',');
    }
}

/// What the filter of each rotation does to a pixel.
proof fn lemma_rotation_filters_move(pixel: Pixel)
    ensures
        moved(rotation_filter(Rotation::NoTurn), pixel) == Some(pixel),
        moved(rotation_filter(Rotation::Clockwise), pixel) == Some(turned(pixel)),
        moved(rotation_filter(Rotation::HalfTurn), pixel) == Some(turned(turned(pixel))),
        moved(rotation_filter(Rotation::CounterClockwise), pixel) == Some(
            turned(turned(turned(pixel))),
        ),
{
    reveal_strlit("null");
    reveal_strlit("hflip");
    reveal_strlit("vflip");
    reveal_strlit("hflip,vflip");
    reveal_strlit("transpose=clock");
    reveal_strlit("transpose=cclock");
    lemma_until_comma("null"@, Seq::empty());
    lemma_until_comma("transpose=clock"@, Seq::empty());
    lemma_until_comma("transpose=cclock"@, Seq::empty());
    lemma_until_comma("vflip"@, Seq::empty());
    lemma_until_comma("hflip"@, "vflip"@);
    assert("hflip,vflip"@ == "hflip"@ + seq![','] + "vflip"@);
    assert("hflip,vflip"@.take(5) == "hflip"@);
    assert("hflip,vflip"@.skip(6) == "vflip"@);
    assert("null"@.len() == 4 && "hflip"@.len() == 5 && "vflip"@.len() == 5);
    assert("transpose=clock"@.len() == 15 && "transpose=cclock"@.len() == 16);
    assert("hflip"@[0] == 'h' && "vflip"@[0] == 'v');
    let flipped = Pixel { x: pixel.width - 1 - pixel.x, ..pixel };
    assert(moved_once("hflip"@, pixel) == Some(flipped));
    assert(moved("vflip"@, flipped) == moved_once("vflip"@, flipped));
    assert(moved("hflip,vflip"@, pixel) == moved("vflip"@, flipped));
}

/// The filter for an angle turns the picture clockwise by as many quarters as there are
/// in the angle, whole turns apart.
pub proof fn filters_turn_the_picture_by_the_angle(degrees: int, pixel: Pixel)
    requires
        -360 < degrees < 360,
        degrees % 90 == 0,
    ensures
        rotation_by(degrees) matches Some(rotation) && moved(rotation_filter(rotation), pixel)
            == Some(turned_times(pixel, (degrees / 90 % 4) as nat)),
{
    lemma_rotation_filters_move(pixel);
    reveal_with_fuel(turned_times, 4);
    let quarters = degrees / 90;
    assert(degrees == quarters * 90);
    assert(-4 < quarters < 4);
}

/// Turning by a quarter one way and then by one the other way changes nothing, a half
/// turn is a quarter turn twice, and no two rotations have the same filter.
pub proof fn rotations_belong_together(pixel: Pixel)
    ensures
        ({
            let quarter = rotation_filter(rotation_by(90)->0);
            let half = rotation_filter(rotation_by(180)->0);
            let three = rotation_filter(rotation_by(270)->0);
            &&& moved(quarter, pixel) matches Some(there) && moved(three, there) == Some(pixel)
            &&& moved(three, pixel) matches Some(there) && moved(quarter, there) == Some(pixel)
            &&& moved(quarter, pixel) matches Some(there) && moved(quarter, there) == moved(
                half,
                pixel,
            )
        }),
        forall|a: Rotation, b: Rotation|
            a != b ==> #[trigger] rotation_filter(a) != #[trigger] rotation_filter(b),
{
    lemma_rotation_filters_move(pixel);
    lemma_rotation_filters_move(turned(pixel));
    lemma_rotation_filters_move(turned(turned(turned(pixel))));
    let corner = Pixel { width: 2, height: 3, x: 0, y: 0 };
    lemma_rotation_filters_move(corner);
    assert forall|a: Rotation, b: Rotation| a != b implies #[trigger] rotation_filter(a)
        != #[trigger] rotation_filter(b) by {
        let to_a = moved(rotation_filter(a), corner);
        let to_b = moved(rotation_filter(b), corner);
        assert(to_a != to_b);
    }
}

/// A rotation swaps width and height if and only if its filter does.
pub proof fn quarter_turns_swap_the_size(rotation: Rotation, pixel: Pixel)
    ensures
        moved(rotation_filter(rotation), pixel) matches Some(there) && (if is_quarter_turn(
            rotation,
        ) {
            there.width == pixel.height && there.height == pixel.width
        } else {
            there.width == pixel.width && there.height == pixel.height
        }),
        is_quarter_turn(rotation) <==> rotation == Rotation::Clockwise || rotation
            == Rotation::CounterClockwise,
{
    lemma_rotation_filters_move(pixel);
}

/// Any other angle is refused, and a profile that names no angle asks for none.
pub proof fn odd_angles_are_refused(degrees: int)
    ensures
        rotation_by(degrees) is Some <==> -360 < degrees < 360 && degrees % 90 == 0,
        rotation_by(degrees_of(None)) == Some(Rotation::NoTurn),
        forall|named: i32| #[trigger] degrees_of(Some(named)) == named,
{
}

/// Where the last minus sign stands, or -1 where there is none.
pub open spec fn last_minus(s: Seq<char>) -> int
    decreases s.len(),
{
    if s.len() == 0 {
        -1
    } else if s.last() == '-' {
        s.len() - 1
    } else {
        last_minus(s.drop_last())
    }
}

/// The number that an expression of numbers and names with minus signs between them stands
/// for, from what each name stands for.
pub open spec fn expression_value(s: Seq<char>, names: spec_fn(Seq<char>) -> int) -> int
    decreases s.len(),
{
    let at = last_minus(s);
    if at < 0 || at >= s.len() {
        if text::all_digits(s) {
            text::digits_value(s) as int
        } else {
            names(s)
        }
    } else {
        let last = s.skip(at + 1);
        let subtrahend = if text::all_digits(last) {
            text::digits_value(last) as int
        } else {
            names(last)
        };
        expression_value(s.take(at), names) - subtrahend
    }
}

proof fn lemma_last_minus(front: Seq<char>, last: Seq<char>)
    requires
        forall|i: int| 0 <= i < last.len() ==> last[i] != '-',
    ensures
        last_minus(last) == -1,
        last_minus(front + seq!['-'] + last) == front.len(),
    decreases last.len(),
{
    let whole = front + seq!['-'] + last;
    if last.len() > 0 {
        lemma_last_minus(front, last.drop_last());
        assert(whole.drop_last() == front + seq!['-'] + last.drop_last());
        assert(whole.last() == last.last());
    } else {
        assert(whole.last() == '-');
    }
}

proof fn lemma_difference(front: Seq<char>, last: Seq<char>, names: spec_fn(Seq<char>) -> int)
    requires
        forall|i: int| 0 <= i < last.len() ==> last[i] != '-',
    ensures
        expression_value(front + seq!['-'] + last, names) == expression_value(front, names)
            - expression_value(last, names),
{
    let whole = front + seq!['-'] + last;
    lemma_last_minus(front, last);
    assert(whole.take(front.len() as int) == front);
    assert(whole.skip(front.len() as int + 1) == last);
}

/// A difference of two names and a margin reads as what it says.
proof fn lemma_far_edge(
    whole: Seq<char>,
    size: Seq<char>,
    own: Seq<char>,
    margin: u32,
    names: spec_fn(Seq<char>) -> int,
)
    requires
        size.len() > 0 && own.len() > 0,
        forall|i: int| 0 <= i < size.len() ==> size[i] != '-' && !text::is_digit(size[i]),
        forall|i: int| 0 <= i < own.len() ==> own[i] != '-' && !text::is_digit(own[i]),
        whole == size + seq!['-'] + own + seq!['-'],
    ensures
        expression_value(whole + text::decimal(margin as nat), names) == names(size) - names(own)
            - margin,
        expression_value(text::decimal(margin as nat), names) == margin,
{
    let m = text::decimal(margin as nat);
    text::decimals_read_back(margin as nat);
    assert forall|i: int| 0 <= i < m.len() implies m[i] != '-' by {
        assert(text::is_digit(m[i]));
    }
    lemma_last_minus(Seq::empty(), m);
    lemma_last_minus(Seq::empty(), own);
    lemma_last_minus(Seq::empty(), size);
    lemma_difference(size, own, names);
    lemma_difference(size + seq!['-'] + own, m, names);
    assert(whole + m == size + seq!['-'] + own + seq!['-'] + m);
    assert(!text::is_digit(size[0]) && !text::is_digit(own[0]));
}

/// A drawn text lies as far as the margin from the edges that its position names: read as
/// a number, its place is the margin at the left and at the top, and at the right and at
/// the bottom what is left of the picture behind the text is the margin.
pub proof fn texts_lie_at_their_edges(
    position: OverlayPosition,
    margin: u32,
    names: spec_fn(Seq<char>) -> int,
)
    ensures
        ({
            let x = expression_value(text_x(position, margin), names);
            let y = expression_value(text_y(position, margin), names);
            let behind = names("w"@) - (x + names("text_w"@));
            let below = names("h"@) - (y + names("text_h"@));
            match position {
                OverlayPosition::TopLeft => x == margin && y == margin,
                OverlayPosition::TopRight => behind == margin && y == margin,
                OverlayPosition::BottomLeft => x == margin && below == margin,
                OverlayPosition::BottomRight => behind == margin && below == margin,
            }
        }),
{
    reveal_strlit("w");
    reveal_strlit("h");
    reveal_strlit("text_w");
    reveal_strlit("text_h");
    reveal_strlit("w-text_w-");
    reveal_strlit("h-text_h-");
    assert("w-text_w-"@ == "w"@ + seq!['-'] + "text_w"@ + seq!['-']);
    assert("h-text_h-"@ == "h"@ + seq!['-'] + "text_h"@ + seq!['-']);
    lemma_far_edge("w-text_w-"@, "w"@, "text_w"@, margin, names);
    lemma_far_edge("h-text_h-"@, "h"@, "text_h"@, margin, names);
}

/// A picture lies as far as the margin from the same edges as a text of the same position.
pub proof fn pictures_lie_at_their_edges(
    position: OverlayPosition,
    margin: u32,
    names: spec_fn(Seq<char>) -> int,
)
    ensures
        exists|across: Seq<char>, down: Seq<char>|
            {
                let x = #[trigger] expression_value(across, names);
                let y = #[trigger] expression_value(down, names);
                let behind = names("W"@) - (x + names("w"@));
                let below = names("H"@) - (y + names("h"@));
                &&& picture_position(position, margin) == "x="@ + across + ":y="@ + down
                &&& match position {
                    OverlayPosition::TopLeft => x == margin && y == margin,
                    OverlayPosition::TopRight => behind == margin && y == margin,
                    OverlayPosition::BottomLeft => x == margin && below == margin,
                    OverlayPosition::BottomRight => behind == margin && below == margin,
                }
            },
{
    reveal_strlit("W");
    reveal_strlit("H");
    reveal_strlit("w");
    reveal_strlit("h");
    reveal_strlit("W-w-");
    reveal_strlit("H-h-");
    reveal_strlit("x=");
    reveal_strlit(":y=");
    reveal_strlit("x=W-w-");
    reveal_strlit(":y=H-h-");
    let m = text::decimal(margin as nat);
    assert("W-w-"@ == "W"@ + seq!['-'] + "w"@ + seq!['-']);
    assert("H-h-"@ == "H"@ + seq!['-'] + "h"@ + seq!['-']);
    lemma_far_edge("W-w-"@, "W"@, "w"@, margin, names);
    lemma_far_edge("H-h-"@, "H"@, "h"@, margin, names);
    let across = match position {
        OverlayPosition::TopLeft => m,
        OverlayPosition::BottomLeft => m,
        _ => "W-w-"@ + m,
    };
    let down = match position {
        OverlayPosition::TopLeft => m,
        OverlayPosition::TopRight => m,
        _ => "H-h-"@ + m,
    };
    assert("x=W-w-"@ == "x="@ + "W-w-"@);
    assert(":y=H-h-"@ == ":y="@ + "H-h-"@);
    assert(picture_position(position, margin) == "x="@ + across + ":y="@ + down);
    let x = expression_value(across, names);
    let y = expression_value(down, names);
}

/// A percentage is written as a whole number and two decimals, a hundred times less.
pub proof fn percentages_are_written_as_fractions(value: u8)
    ensures
        exists|whole: Seq<char>, hundredths: Seq<char>|
            {
                &&& percent_as_decimal(value) == #[trigger] (whole + seq!['.'] + hundredths)
                &&& text::all_digits(whole) && whole.len() > 0
                &&& text::all_digits(hundredths) && hundredths.len() == 2
                &&& 100 * text::digits_value(whole) + text::digits_value(hundredths) == value
            },
{
    let n = value as nat;
    let whole = text::decimal(n / 100);
    let tens = text::digit_char(n / 10 % 10);
    let ones = text::digit_char(n % 10);
    let hundredths = seq![tens, ones];
    text::decimals_read_back(n / 100);
    reveal_strlit(".");
    assert("."@ == seq!['.']);
    assert(percent_as_decimal(value) == whole + seq!['.'] + hundredths);
    assert(text::is_digit(tens) && text::is_digit(ones));
    assert(text::digit_value(tens) == n / 10 % 10);
    assert(text::digit_value(ones) == n % 10);
    assert(hundredths.drop_last() == seq![tens]);
    assert(seq![tens].drop_last() == Seq::<char>::empty());
    assert(text::digits_value(Seq::empty()) == 0);
    assert(text::digits_value(seq![tens]) == n / 10 % 10);
    assert(text::digits_value(hundredths) == (n / 10 % 10) * 10 + n % 10);
    assert(100 * (n / 100) + ((n / 10 % 10) * 10 + n % 10) == n);
}

/// A picture is read from its path. A width makes it smaller, an opacity below a hundred
/// fainter, and each adds its own filter behind the others and nothing else.
pub proof fn watermarks_are_changed_step_by_step(watermark: CompiledWatermarkOverlay)
    ensures
        watermark.max_width_px is None && watermark.opacity >= 100 ==> watermark_filters(watermark)
            == "movie='"@ + escaped_value(watermark.image_path@) + "'"@,
        watermark.max_width_px matches Some(width) ==> (watermark.opacity >= 100
            ==> watermark_filters(watermark) == watermark_filters(
            (CompiledWatermarkOverlay { max_width_px: None, ..watermark }),
        ) + (",scale=w="@ + text::decimal(width as nat)
            + ":h=-1:force_original_aspect_ratio=decrease"@)),
        watermark.opacity < 100 ==> watermark_filters(watermark) == watermark_filters(
            (CompiledWatermarkOverlay { opacity: 100, ..watermark }),
        ) + (",format=rgba,colorchannelmixer=aa="@ + percent_as_decimal(watermark.opacity)),
{
    reveal_strlit(",format=rgba");
    reveal_strlit(",colorchannelmixer=aa=");
    reveal_strlit(",format=rgba,colorchannelmixer=aa=");
    assert(",format=rgba"@ + ",colorchannelmixer=aa="@ == ",format=rgba,colorchannelmixer=aa="@);
    if let Some(width) = watermark.max_width_px {
        let plain = watermark_filters(
            (CompiledWatermarkOverlay { max_width_px: None, opacity: 100, ..watermark }),
        );
        assert(plain + ",scale=w="@ + text::decimal(width as nat)
            + ":h=-1:force_original_aspect_ratio=decrease"@ == plain + (",scale=w="@
            + text::decimal(width as nat) + ":h=-1:force_original_aspect_ratio=decrease"@));
    }
    if watermark.opacity < 100 {
        let full = watermark_filters((CompiledWatermarkOverlay { opacity: 100, ..watermark }));
        assert(full + ",format=rgba"@ + ",colorchannelmixer=aa="@ + percent_as_decimal(
            watermark.opacity,
        ) == full + (",format=rgba"@ + ",colorchannelmixer=aa="@ + percent_as_decimal(
            watermark.opacity,
        )));
    }
}

proof fn lemma_option_is_found(
    front: Seq<char>,
    key: Seq<char>,
    value: Seq<char>,
    end: char,
    tail: Seq<char>,
)
    requires
        tail.len() > 0,
        tail[0] == end,
    ensures
        text::has_substring(front + (key + value + tail), key + value + seq![end]),
{
    let part = key + value + seq![end];
    let rest = tail.drop_first();
    assert(front + (key + value + tail) == front + part + rest);
    text::parts_of_a_text_are_found(front, part, rest);
}

/// A text is drawn as its style says: its place, its size, its color, its box and the
/// border of that stand in the filter, each whole and under its name.
pub proof fn texts_are_drawn_in_their_style(escaped: Seq<char>, style: CompiledTextOverlayStyle)
    ensures
        ({
            let filter = drawtext(escaped, style);
            &&& text::has_substring(filter, "':text='"@ + escaped + seq!['\''])
            &&& text::has_substring(
                filter,
                "':x="@ + text_x(style.position, style.margin) + seq![':'],
            )
            &&& text::has_substring(
                filter,
                ":y="@ + text_y(style.position, style.margin) + seq![':'],
            )
            &&& text::has_substring(
                filter,
                ":fontsize="@ + text::decimal(style.font_size as nat) + seq![':'],
            )
            &&& text::has_substring(
                filter,
                ":fontcolor="@ + escaped_value(style.font_color@) + seq![':'],
            )
            &&& text::has_substring(
                filter,
                ":box=1:boxcolor="@ + (escaped_value(style.background_color@) + "@"@
                    + percent_as_decimal(style.background_alpha)) + seq![':'],
            )
            &&& text::has_suffix(filter, ":boxborderw="@ + text::decimal(style.padding as nat))
        }),
{
    reveal_strlit("':x=");
    reveal_strlit(":y=");
    reveal_strlit(":fontsize=");
    reveal_strlit(":fontcolor=");
    reveal_strlit(":box=1:boxcolor=");
    reveal_strlit(":boxborderw=");
    let font = "drawtext=fontfile='"@ + escaped_value(font_path());
    let x = text_x(style.position, style.margin);
    let y = text_y(style.position, style.margin);
    let size = text::decimal(style.font_size as nat);
    let color = escaped_value(style.font_color@);
    let back = escaped_value(style.background_color@);
    let alpha = percent_as_decimal(style.background_alpha);
    let shade = back + "@"@ + alpha;
    let filter = drawtext(escaped, style);
    let to_text = font + "':text='"@ + escaped;
    let to_x = to_text + "':x="@ + x;
    let to_y = to_x + ":y="@ + y;
    let to_size = to_y + ":fontsize="@ + size;
    let to_color = to_size + ":fontcolor="@ + color;
    let border = text::decimal(style.padding as nat);
    let from_border = ":boxborderw="@ + border;
    let from_box = ":box=1:boxcolor="@ + shade + from_border;
    let from_color = ":fontcolor="@ + color + from_box;
    let from_size = ":fontsize="@ + size + from_color;
    let from_y = ":y="@ + y + from_size;
    let from_x = "':x="@ + x + from_y;
    lemma_regroup(to_color + ":box=1:boxcolor="@, back, "@"@, alpha);
    let to_box = to_color + ":box=1:boxcolor="@ + shade;
    lemma_regroup(to_color, ":box=1:boxcolor="@, shade, from_border);
    lemma_regroup(to_color + ":box=1:boxcolor="@, shade, ":boxborderw="@, border);
    assert(filter == to_box + ":boxborderw="@ + border);
    lemma_pair(to_box, ":boxborderw="@, border);
    assert(filter == to_box + from_border);
    assert(filter == to_color + from_box);
    lemma_regroup(to_size, ":fontcolor="@, color, from_box);
    assert(filter == to_size + from_color);
    lemma_regroup(to_y, ":fontsize="@, size, from_color);
    assert(filter == to_y + from_size);
    lemma_regroup(to_x, ":y="@, y, from_size);
    assert(filter == to_x + from_y);
    lemma_regroup(to_text, "':x="@, x, from_y);
    assert(filter == to_text + from_x);
    lemma_regroup(font, "':text='"@, escaped, from_x);
    assert(filter == font + ("':text='"@ + escaped + from_x));
    lemma_option_is_found(font, "':text='"@, escaped, '\'', from_x);
    lemma_option_is_found(to_text, "':x="@, x, ':', from_y);
    lemma_option_is_found(to_x, ":y="@, y, ':', from_size);
    lemma_option_is_found(to_y, ":fontsize="@, size, ':', from_color);
    lemma_option_is_found(to_size, ":fontcolor="@, color, ':', from_box);
    lemma_option_is_found(to_color, ":box=1:boxcolor="@, shade, ':', from_border);
    text::parts_of_a_text_are_found(to_box, from_border, Seq::empty());
}

proof fn lemma_pair(a: Seq<char>, b: Seq<char>, c: Seq<char>)
    ensures
        a + b + c == a + (b + c),
{
}

/// The time is drawn in the time zone that is asked for, in the format that is asked for.
pub proof fn times_are_drawn_in_their_zone(timestamp: CompiledTimestampOverlay)
    ensures
        timestamp_filter(timestamp) == drawtext(
            (if timestamp.timezone == OverlayTimezone::Utc {
                "%{gmtime\\:"@
            } else {
                "%{localtime\\:"@
            }) + escaped_format(timestamp.format@) + "}"@,
            timestamp.style,
        ),
{
    reveal_strlit("%{");
    reveal_strlit("gmtime");
    reveal_strlit("localtime");
    reveal_strlit("\\:");
    reveal_strlit("%{gmtime\\:");
    reveal_strlit("%{localtime\\:");
    assert("%{"@ + "gmtime"@ + "\\:"@ == "%{gmtime\\:"@);
    assert("%{"@ + "localtime"@ + "\\:"@ == "%{localtime\\:"@);
}

proof fn lemma_regroup(a: Seq<char>, b: Seq<char>, c: Seq<char>, d: Seq<char>)
    ensures
        a + b + c + d == a + (b + c + d),
        a + b + c + d == (a + b) + (c + d),
{
}

proof fn lemma_stage_label(index: nat)
    ensures
        "["@ + stage(index) == "[stage"@ + text::decimal(index),
{
    reveal_strlit("[");
    reveal_strlit("stage");
    reveal_strlit("[stage");
    assert("["@ + "stage"@ == "[stage"@);
    assert("["@ + stage(index) == ("["@ + "stage"@) + text::decimal(index));
}

proof fn lemma_linked(here: Seq<char>, drawn: Seq<char>, index: nat)
    ensures
        text::has_suffix(
            here + drawn + "["@ + stage(index + 1) + "]"@,
            "[stage"@ + text::decimal(index + 1) + "]"@,
        ),
        text::has_prefix(here + drawn + "["@ + stage(index + 1) + "]"@, here),
{
    let next = "["@ + stage(index + 1) + "]"@;
    lemma_stage_label(index + 1);
    let whole = here + drawn + "["@ + stage(index + 1) + "]"@;
    lemma_regroup(here + drawn, "["@, stage(index + 1), "]"@);
    assert(whole == (here + drawn) + next);
    text::parts_of_a_text_are_found(here + drawn, next, Seq::empty());
    assert((here + drawn) + next == here + (drawn + next));
    text::parts_of_a_text_are_found(here, drawn + next, Seq::empty());
}

/// The layers are linked in a chain: each one takes the picture that the one below it
/// leaves, and leaves one for the next.
pub proof fn layers_are_linked_in_a_chain(index: nat, layer: CompiledOverlayLayer)
    ensures
        text::has_suffix(layer_filters(index, layer), "[stage"@ + text::decimal(index + 1) + "]"@),
        !(layer is Watermark) ==> text::has_prefix(
            layer_filters(index, layer),
            "[stage"@ + text::decimal(index) + "]"@,
        ),
{
    lemma_stage_label(index);
    let here = "["@ + stage(index) + "]"@;
    match layer {
        CompiledOverlayLayer::Timestamp(timestamp) => {
            lemma_linked(here, timestamp_filter(timestamp), index);
        },
        CompiledOverlayLayer::Text(drawn) => {
            lemma_linked(here, drawtext(escaped_text(drawn.text@), drawn.style), index);
        },
        CompiledOverlayLayer::Watermark(watermark) => {
            lemma_linked(
                watermark_filters(watermark) + "[wm"@ + text::decimal(index) + "];["@ + stage(
                    index,
                ) + "][wm"@ + text::decimal(index) + "]overlay="@,
                picture_position(watermark.position, watermark.margin),
                index,
            );
        },
    }
}

/// The picture is turned first; the first layer takes what the rotation leaves, and what
/// the last one leaves comes out.
pub proof fn graphs_lead_from_in_to_out(rotation: Rotation, overlay: CompiledOverlayProfile)
    ensures
        text::has_prefix(
            filter_graph(rotation, Some(overlay)),
            "[in]"@ + rotation_filter(rotation) + "[stage0]"@,
        ),
        text::has_suffix(
            filter_graph(rotation, Some(overlay)),
            "[stage"@ + text::decimal(overlay.layers@.len()) + "]null[out]"@,
        ),
        filter_graph(rotation, None) == "[in]"@ + rotation_filter(rotation) + "[out]"@,
{
    reveal_strlit("[");
    reveal_strlit(";[");
    assert(";["@ == seq![';'] + "["@);
    let head = "[in]"@ + rotation_filter(rotation) + "[stage0]"@;
    let layers = layers_filters(overlay.layers@);
    let out = "]null[out]"@;
    let count = overlay.layers@.len();
    let graph = filter_graph(rotation, Some(overlay));
    lemma_stage_label(count);
    let front = head + layers;
    assert(graph == front + ";["@ + stage(count) + out);
    lemma_regroup(front, ";["@, stage(count), out);
    let last = "[stage"@ + text::decimal(count) + out;
    assert(";["@ + stage(count) + out == seq![';'] + last) by {
        lemma_regroup(seq![';'], "["@, stage(count), out);
    }
    assert(front + (seq![';'] + last) == (front + seq![';']) + last);
    text::parts_of_a_text_are_found(front + seq![';'], last, Seq::empty());
    assert((head + layers) + (seq![';'] + last) == head + (layers + (seq![';'] + last)));
    text::parts_of_a_text_are_found(head, layers + (seq![';'] + last), Seq::empty());
}

/// A fraction with two positive parts is kept, and any other becomes one whole.
pub proof fn fractions_are_kept_if_positive(value: Rational)
    ensures
        value.numerator > 0 && value.denominator > 0 ==> sane(value) == value,
        !(value.numerator > 0 && value.denominator > 0) ==> sane(value).numerator == 1 && sane(
            value,
        ).denominator == 1,
{
}

/// The frames that enter the graph are described by their size, width first, and by their
/// format, their time base and the shape of their pixels.
pub proof fn entering_frames_are_described(
    width: u32,
    height: u32,
    pixel_format: Seq<char>,
    time_base: Rational,
    aspect_ratio: Rational,
)
    ensures
        ({
            let args = source_args(width, height, pixel_format, time_base, aspect_ratio);
            &&& text::has_prefix(
                args,
                "video_size="@ + text::decimal(width as nat) + "x"@ + text::decimal(height as nat)
                    + ":pix_fmt="@ + pixel_format + ":time_base="@,
            )
            &&& text::has_substring(
                args,
                ":time_base="@ + text::signed_decimal(time_base.numerator as int) + "/"@
                    + text::signed_decimal(time_base.denominator as int) + ":pixel_aspect="@,
            )
            &&& text::has_suffix(
                args,
                ":pixel_aspect="@ + text::signed_decimal(sane(aspect_ratio).numerator as int)
                    + "/"@ + text::signed_decimal(sane(aspect_ratio).denominator as int),
            )
        }),
{
    let size = "video_size="@ + text::decimal(width as nat) + "x"@ + text::decimal(height as nat)
        + ":pix_fmt="@ + pixel_format;
    let n = text::signed_decimal(time_base.numerator as int);
    let d = text::signed_decimal(time_base.denominator as int);
    let a = text::signed_decimal(sane(aspect_ratio).numerator as int);
    let b = text::signed_decimal(sane(aspect_ratio).denominator as int);
    let args = source_args(width, height, pixel_format, time_base, aspect_ratio);
    lemma_entering_frames(size, n, d, a, b);
    assert(args == size + ":time_base="@ + n + "/"@ + d + ":pixel_aspect="@ + a + "/"@ + b);
}

proof fn lemma_entering_frames(
    size: Seq<char>,
    n: Seq<char>,
    d: Seq<char>,
    a: Seq<char>,
    b: Seq<char>,
)
    ensures
        ({
            let args = size + ":time_base="@ + n + "/"@ + d + ":pixel_aspect="@ + a + "/"@ + b;
            &&& text::has_prefix(args, size + ":time_base="@)
            &&& text::has_substring(args, ":time_base="@ + n + "/"@ + d + ":pixel_aspect="@)
            &&& text::has_suffix(args, ":pixel_aspect="@ + a + "/"@ + b)
        }),
{
    let args = size + ":time_base="@ + n + "/"@ + d + ":pixel_aspect="@ + a + "/"@ + b;
    let front = size + ":time_base="@;
    let base = n + "/"@ + d;
    let shape = a + "/"@ + b;
    lemma_regroup(front, n, "/"@, d);
    assert(front + n + "/"@ + d == front + base);
    lemma_regroup(front + base + ":pixel_aspect="@, a, "/"@, b);
    assert(args == front + base + ":pixel_aspect="@ + shape);
    lemma_regroup(front, base, ":pixel_aspect="@, shape);
    text::parts_of_a_text_are_found(front, base + ":pixel_aspect="@ + shape, Seq::empty());
    let end = ":pixel_aspect="@ + a + "/"@ + b;
    lemma_regroup(":pixel_aspect="@, a, "/"@, b);
    assert(end == ":pixel_aspect="@ + shape);
    text::parts_of_a_text_are_found(front + base, end, Seq::empty());
    let middle = ":time_base="@ + n + "/"@ + d + ":pixel_aspect="@;
    lemma_regroup(":time_base="@, n, "/"@, d);
    assert(middle == ":time_base="@ + base + ":pixel_aspect="@);
    assert(front + base + ":pixel_aspect="@ == size + middle) by {
        lemma_regroup(size, ":time_base="@, base, ":pixel_aspect="@);
    }
    text::parts_of_a_text_are_found(size, middle, shape);
}

/// Whatever angle is asked for, the filter that is given for it turns the picture clockwise
/// by as many quarters as there are in the angle.
pub proof fn angles_turn_the_picture(
    degrees: i32,
    rotation: Rotation,
    filter: &'static str,
    size: (u32, u32),
    pixel: Pixel,
)
    requires
        call_ensures(normalize_rotation, (Some(degrees),), Ok::<Rotation, String>(rotation)),
        call_ensures(Rotation::filter_spec, (rotation,), filter),
        0 <= pixel.width <= u32::MAX,
        0 <= pixel.height <= u32::MAX,
        call_ensures(
            rotated_dimensions,
            (pixel.width as u32, pixel.height as u32, rotation),
            size,
        ),
    ensures
        moved(filter@, pixel) == Some(turned_times(pixel, (degrees as int / 90 % 4) as nat)),
        moved(filter@, pixel) matches Some(there) && there.width == size.0 && there.height
            == size.1,
{
    filters_turn_the_picture_by_the_angle(degrees as int, pixel);
    quarter_turns_swap_the_size(rotation, pixel);
}

/// A text and a picture of the same position lie as far from the same edges: read as
/// numbers, their places leave the margin in front of them at the left and at the top, and
/// behind them at the right and at the bottom.
pub proof fn texts_and_pictures_lie_at_the_same_edges(
    position: OverlayPosition,
    margin: u32,
    drawn: (String, String),
    shown: String,
    names: spec_fn(Seq<char>) -> int,
)
    requires
        call_ensures(drawtext_position_expr, (position, margin), drawn),
        call_ensures(overlay_position_expr, (position, margin), shown),
    ensures
        ({
            let x = expression_value(drawn.0@, names);
            let y = expression_value(drawn.1@, names);
            let left = position == OverlayPosition::TopLeft || position
                == OverlayPosition::BottomLeft;
            let top = position == OverlayPosition::TopLeft || position
                == OverlayPosition::TopRight;
            &&& left ==> x == margin
            &&& !left ==> names("w"@) - names("text_w"@) - x == margin
            &&& top ==> y == margin
            &&& !top ==> names("h"@) - names("text_h"@) - y == margin
            &&& exists|across: Seq<char>, down: Seq<char>|
                {
                    let from_left = #[trigger] expression_value(across, names);
                    let from_top = #[trigger] expression_value(down, names);
                    &&& shown@ == "x="@ + across + ":y="@ + down
                    &&& left ==> from_left == margin
                    &&& !left ==> names("W"@) - names("w"@) - from_left == margin
                    &&& top ==> from_top == margin
                    &&& !top ==> names("H"@) - names("h"@) - from_top == margin
                }
        }),
{
    texts_lie_at_their_edges(position, margin, names);
    pictures_lie_at_their_edges(position, margin, names);
    let (across, down) = choose|across: Seq<char>, down: Seq<char>|
        {
            let x = #[trigger] expression_value(across, names);
            let y = #[trigger] expression_value(down, names);
            let behind = names("W"@) - (x + names("w"@));
            let below = names("H"@) - (y + names("h"@));
            &&& picture_position(position, margin) == "x="@ + across + ":y="@ + down
            &&& match position {
                OverlayPosition::TopLeft => x == margin && y == margin,
                OverlayPosition::TopRight => behind == margin && y == margin,
                OverlayPosition::BottomLeft => x == margin && below == margin,
                OverlayPosition::BottomRight => behind == margin && below == margin,
            }
        };
    let from_left = expression_value(across, names);
    let from_top = expression_value(down, names);
    assert(shown@ == "x="@ + across + ":y="@ + down);
}

/// What is escaped reads back as what it was, and holds no quote that would end it.
pub proof fn escapes_read_back(
    value: &str,
    path: String,
    option: String,
    drawn: String,
    format: String,
)
    requires
        call_ensures(escape_filter_path, (value,), path),
        call_ensures(escape_filter_value, (value,), option),
        call_ensures(escape_drawtext_text, (value,), drawn),
        call_ensures(escape_drawtext_expansion_format, (value,), format),
    ensures
        unescaped(path@) == value@ && quotes_escaped(path@),
        unescaped(option@) == value@ && quotes_escaped(option@),
        unescaped(drawn@) == value@ && quotes_escaped(drawn@),
        unescaped(unescaped(format@)) == value@ && quotes_escaped(format@),
{
    escaped_values_read_back(value@);
    escaped_texts_read_back(value@);
    escaped_formats_read_back(value@);
    escaping_leaves_no_bare_quote(value@);
}

/// A graph leads from the picture that comes in, through its rotation, to the one that goes
/// out, and draws its layers in between.
pub proof fn written_graphs_lead_from_in_to_out(
    rotation: Rotation,
    overlay: &CompiledOverlayProfile,
    turned_only: Result<String, String>,
    drawn: Result<String, String>,
    filter: &'static str,
)
    requires
        call_ensures(Rotation::filter_spec, (rotation,), filter),
        call_ensures(build_filter_spec, (rotation, None), turned_only),
        call_ensures(build_filter_spec, (rotation, Some(overlay)), drawn),
    ensures
        turned_only matches Ok(graph) && graph@ == "[in]"@ + filter@ + "[out]"@,
        drawn matches Ok(graph) && text::has_prefix(graph@, "[in]"@ + filter@ + "[stage0]"@)
            && text::has_suffix(
            graph@,
            "[stage"@ + text::decimal(overlay.layers@.len()) + "]null[out]"@,
        ),
{
    graphs_lead_from_in_to_out(rotation, *overlay);
}

/// Whether every occurrence of a character in a text stands behind a backslash.
pub open spec fn always_escaped(s: Seq<char>, c: char) -> bool {
    forall|i: int| 0 <= i < s.len() && #[trigger] s[i] == c ==> i > 0 && s[i - 1] == '\\'
}

proof fn lemma_stays_escaped(a: Seq<char>, b: Seq<char>, c: char)
    requires
        always_escaped(a, c),
        always_escaped(b, c),
    ensures
        always_escaped(a + b, c),
{
    let both = a + b;
    assert forall|i: int| 0 <= i < both.len() && #[trigger] both[i] == c implies i > 0 && both[i
        - 1] == '\\' by {
        if i < a.len() {
            assert(a[i] == both[i]);
            assert(both[i - 1] == a[i - 1]);
        } else {
            assert(b[i - a.len()] == both[i]);
            assert(both[i - 1] == b[i - a.len() - 1]);
        }
    }
}

/// A colon, which would end an option, is escaped in every value and text, and a percent
/// sign, which would begin an expansion, in every text.
pub proof fn special_characters_are_escaped(s: Seq<char>)
    ensures
        always_escaped(escaped_value(s), ':'),
        always_escaped(escaped_text(s), ':'),
        always_escaped(escaped_text(s), '%'),
    decreases s.len(),
{
    if s.len() > 0 {
        let front = s.drop_last();
        let c = s.last();
        special_characters_are_escaped(front);
        lemma_stays_escaped(escaped_value(front), value_char(c), ':');
        lemma_stays_escaped(escaped_text(front), drawn_char(c), ':');
        lemma_stays_escaped(escaped_text(front), drawn_char(c), '%');
    }
}

/// A text without backslashes, colons, quotes and percent signs is left as it is.
pub proof fn plain_texts_need_no_escape(s: Seq<char>)
    requires
        forall|i: int|
            0 <= i < s.len() ==> #[trigger] s[i] != '\\' && s[i] != ':' && s[i] != '\'' && s[i]
                != '%',
    ensures
        escaped_value(s) == s,
        escaped_text(s) == s,
        escaped_format(s) == s,
    decreases s.len(),
{
    if s.len() > 0 {
        let front = s.drop_last();
        let c = s[s.len() - 1];
        assert forall|i: int| 0 <= i < front.len() implies #[trigger] front[i] != '\\' && front[i]
            != ':' && front[i] != '\'' && front[i] != '%' by {
            assert(front[i] == s[i]);
        }
        plain_texts_need_no_escape(front);
        assert(front + seq![c] == s);
    }
}

/// A further layer is written behind the others, with the number of those below it.
pub proof fn layers_are_numbered_from_below(
    layers: Seq<CompiledOverlayLayer>,
    layer: CompiledOverlayLayer,
)
    ensures
        layers_filters(Seq::empty()) == Seq::<char>::empty(),
        layers_filters(layers.push(layer)) == layers_filters(layers) + ";"@ + layer_filters(
            layers.len(),
            layer,
        ),
{
    assert(layers.push(layer).drop_last() == layers);
}

} // verus!
