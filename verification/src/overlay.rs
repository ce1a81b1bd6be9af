//! Overlays: the defaults of their look, and the expansion of their templates.

use vstd::prelude::*;

use crate::capability::CompileFailure;
use crate::error::CompileError;
use crate::frontend::{
    OverlayLayer, OverlayPosition, OverlayProfile, OverlayTimezone, TextOverlayStyle,
};
use crate::string_map::StringMap;
use crate::text;

verus! {

pub const DEFAULT_OVERLAY_FONT_SIZE_PX: u32 = 18;

pub const DEFAULT_OVERLAY_BACKGROUND_ALPHA: u8 = 60;

pub const DEFAULT_OVERLAY_PADDING_PX: u32 = 6;

pub const DEFAULT_OVERLAY_MARGIN_PX: u32 = 12;

pub const DEFAULT_WATERMARK_OPACITY: u8 = 100;

/// The layers of a pipeline, ready to be drawn, bottom first.
#[derive(Debug, Clone, PartialEq, Eq)]
pub struct CompiledOverlayProfile {
    pub layers: Vec<CompiledOverlayLayer>,
}

/// A layer that is ready to be drawn.
#[derive(Debug, Clone, PartialEq, Eq)]
pub enum CompiledOverlayLayer {
    Timestamp(CompiledTimestampOverlay),
    Text(CompiledTextOverlay),
    Watermark(CompiledWatermarkOverlay),
}

/// The whole look of a text layer.
#[derive(Debug, Clone, PartialEq, Eq)]
pub struct CompiledTextOverlayStyle {
    pub position: OverlayPosition,
    pub font_size: u32,
    pub font_color: String,
    pub background_color: String,
    pub background_alpha: u8,
    pub padding: u32,
    pub margin: u32,
}

#[derive(Debug, Clone, PartialEq, Eq)]
pub struct CompiledTimestampOverlay {
    pub format: String,
    pub timezone: OverlayTimezone,
    pub style: CompiledTextOverlayStyle,
}

#[derive(Debug, Clone, PartialEq, Eq)]
pub struct CompiledTextOverlay {
    pub text: String,
    pub style: CompiledTextOverlayStyle,
}

#[derive(Debug, Clone, PartialEq, Eq)]
pub struct CompiledWatermarkOverlay {
    pub image_path: String,
    pub position: OverlayPosition,
    pub max_width_px: Option<u32>,
    pub opacity: u8,
    pub margin: u32,
}

// ---------------------------------------------------------------------------
// Templates
// ---------------------------------------------------------------------------

/// The position of the first `}` in a text, or its length where there is none.
pub open spec fn closing_brace(s: Seq<char>) -> nat
    decreases s.len(),
{
    if s.len() == 0 || s[0] == '}' {
        0
    } else {
        1 + closing_brace(s.drop_first())
    }
}

pub open spec fn unterminated_failure(id: Seq<char>) -> CompileFailure {
    CompileFailure::InvalidConfiguration(
        "pipeline '"@ + id
            + "' overlay template contains an unterminated variable placeholder"@,
    )
}

pub open spec fn unknown_variable_failure(id: Seq<char>, key: Seq<char>) -> CompileFailure {
    CompileFailure::InvalidConfiguration(
        "pipeline '"@ + id + "' overlay template references unknown variable '"@ + key + "'"@,
    )
}

pub open spec fn unmatched_brace_failure(id: Seq<char>) -> CompileFailure {
    CompileFailure::InvalidConfiguration(
        "pipeline '"@ + id + "' overlay template contains an unmatched closing brace"@,
    )
}

/// What a template expands to: every `{name}` stands for the value of the variable,
/// every other character for itself. The first thing wrong with it is reported.
pub open spec fn expansion(
    id: Seq<char>,
    template: Seq<char>,
    variables: Map<Seq<char>, Seq<char>>,
) -> Result<Seq<char>, CompileFailure>
    decreases template.len(),
{
    if template.len() == 0 {
        Ok(Seq::empty())
    } else if template[0] == '{' {
        let rest = template.drop_first();
        let end = closing_brace(rest);
        let key = text::trimmed(rest.take(end as int));
        if end >= rest.len() {
            Err(unterminated_failure(id))
        } else if !variables.dom().contains(key) {
            Err(unknown_variable_failure(id, key))
        } else {
            match expansion(id, rest.skip((end + 1) as int), variables) {
                Ok(tail) => Ok(variables[key] + tail),
                Err(failure) => Err(failure),
            }
        }
    } else if template[0] == '}' {
        Err(unmatched_brace_failure(id))
    } else {
        match expansion(id, template.drop_first(), variables) {
            Ok(tail) => Ok(seq![template[0]] + tail),
            Err(failure) => Err(failure),
        }
    }
}

/// The characters of the values of variables.
pub open spec fn variable_texts(variables: Map<Seq<char>, String>) -> Map<Seq<char>, Seq<char>> {
    variables.map_values(|value: String| value@)
}

/// The variables that the templates of a pipeline may use: the given ones, and the
/// name of the pipeline as `camera_id` and `pipeline_id`.
pub open spec fn pipeline_variables(
    id: Seq<char>,
    variables: Map<Seq<char>, Seq<char>>,
) -> Map<Seq<char>, Seq<char>> {
    variables.insert("camera_id"@, id).insert("pipeline_id"@, id)
}

/// The variables that the templates of a pipeline may use.
pub fn overlay_variables_for_pipeline(
    pipeline_id: &str,
    overlay_variables: &StringMap<String>,
) -> (r: StringMap<String>)
    ensures
        variable_texts(r@) == pipeline_variables(pipeline_id@, variable_texts(overlay_variables@)),
{
    let mut resolved = overlay_variables.clone();
    resolved.insert("camera_id".to_owned(), pipeline_id.to_owned());
    resolved.insert("pipeline_id".to_owned(), pipeline_id.to_owned());
    assert(variable_texts(resolved@) =~= pipeline_variables(
        pipeline_id@,
        variable_texts(overlay_variables@),
    ));
    resolved
}

fn invalid_template(pipeline_id: &str, rest: &str) -> (r: CompileError)
    ensures
        r@ == CompileFailure::InvalidConfiguration("pipeline '"@ + pipeline_id@ + rest@),
{
    CompileError::InvalidConfiguration(text::join3("pipeline '", pipeline_id, rest))
}

/// Expands a template.
pub fn expand_overlay_template(
    pipeline_id: &str,
    template: &str,
    overlay_variables: &StringMap<String>,
) -> (r: Result<String, CompileError>)
    ensures
        match r {
            Ok(output) => expansion(
                pipeline_id@,
                template@,
                variable_texts(overlay_variables@),
            ) == Ok::<Seq<char>, CompileFailure>(output@),
            Err(error) => expansion(
                pipeline_id@,
                template@,
                variable_texts(overlay_variables@),
            ) == Err::<Seq<char>, CompileFailure>(error@),
        },
{
    let chars = text::chars_of(template);
    let mut output = String::new();
    let mut i: usize = 0;
    let ghost id = pipeline_id@;
    let ghost variables = variable_texts(overlay_variables@);
    let ghost whole = expansion(id, template@, variables);
    assert(template@.skip(0) == template@);
    proof {
        if let Ok(tail) = whole {
            assert(Seq::<char>::empty() + tail == tail);
        }
    }
    while i < chars.len()
        invariant
            i <= chars@.len(),
            chars@ == template@,
            id == pipeline_id@,
            variables == variable_texts(overlay_variables@),
            whole == expansion(id, template@, variables),
            match expansion(id, template@.skip(i as int), variables) {
                Ok(tail) => whole == Ok::<Seq<char>, CompileFailure>(output@ + tail),
                Err(failure) => whole == Err::<Seq<char>, CompileFailure>(failure),
            },
        decreases chars@.len() - i,
    {
        let ghost here = template@.skip(i as int);
        let ghost rest = here.drop_first();
        assert(rest == template@.skip(i + 1));
        assert(here[0] == chars@[i as int]);
        if chars[i] == '{' {
            let end: usize = find_closing_brace(&chars, i + 1);
            assert(chars@.skip(i + 1) == rest);
            if end == chars.len() {
                return Err(
                    invalid_template(
                        pipeline_id,
                        "' overlay template contains an unterminated variable placeholder",
                    ),
                );
            }
            let inner = template.substring_char(i + 1, end);
            let key = text::trim(inner);
            assert(inner@ == rest.take(end - (i + 1)));
            match overlay_variables.get(key) {
                None => {
                    let mut message = text::join3(
                        "pipeline '",
                        pipeline_id,
                        "' overlay template references unknown variable '",
                    );
                    message.append(key);
                    message.append("'");
                    return Err(CompileError::InvalidConfiguration(message));
                },
                Some(value) => {
                    let ghost so_far = output@;
                    output.append(value.as_str());
                    assert(rest.skip(end - (i + 1) + 1) == template@.skip(end + 1));
                    proof {
                        if let Ok(tail) = expansion(id, template@.skip(end + 1), variables) {
                            assert(so_far + (value@ + tail) == output@ + tail);
                        }
                    }
                },
            }
            i = end + 1;
        } else if chars[i] == '}' {
            return Err(
                invalid_template(
                    pipeline_id,
                    "' overlay template contains an unmatched closing brace",
                ),
            );
        } else {
            let ghost so_far = output@;
            output.push(chars[i]);
            proof {
                if let Ok(tail) = expansion(id, rest, variables) {
                    assert(so_far + (seq![here[0]] + tail) == output@ + tail);
                }
            }
            i += 1;
        }
    }
    assert(template@.skip(i as int).len() == 0);
    assert(output@ + Seq::<char>::empty() == output@);
    Ok(output)
}

/// The position of the first `}` at or after `start`, or the length.
fn find_closing_brace(chars: &Vec<char>, start: usize) -> (r: usize)
    requires
        start <= chars@.len(),
    ensures
        start <= r <= chars@.len(),
        r == start + closing_brace(chars@.skip(start as int)),
{
    let mut i: usize = start;
    while i < chars.len() && chars[i] != '}'
        invariant
            start <= i <= chars@.len(),
            start + closing_brace(chars@.skip(start as int)) == i + closing_brace(
                chars@.skip(i as int),
            ),
        decreases chars@.len() - i,
    {
        assert(chars@.skip(i as int).drop_first() == chars@.skip(i + 1));
        i += 1;
    }
    i
}

// ---------------------------------------------------------------------------
// Layers
// ---------------------------------------------------------------------------

/// The text of an option, or a default.
pub open spec fn text_or(value: Option<String>, default_text: Seq<char>) -> Seq<char> {
    match value {
        Some(value) => value@,
        None => default_text,
    }
}

/// The value of an option, or a default.
pub open spec fn value_or<T>(value: Option<T>, default_value: T) -> T {
    match value {
        Some(value) => value,
        None => default_value,
    }
}

/// The format of a timestamp layer that names none.
pub open spec fn standard_timestamp_format(timezone: OverlayTimezone) -> Seq<char> {
    match timezone {
        OverlayTimezone::Utc => "%Y-%m-%d %H:%M:%S UTC"@,
        OverlayTimezone::Local => "%Y-%m-%d %H:%M:%S"@,
    }
}

/// Whether a compiled look is the given one with the defaults filled in.
pub open spec fn style_filled_in(
    compiled: CompiledTextOverlayStyle,
    position: OverlayPosition,
    style: TextOverlayStyle,
) -> bool {
    &&& compiled.position == position
    &&& compiled.font_size == value_or(style.font_size, DEFAULT_OVERLAY_FONT_SIZE_PX)
    &&& compiled.font_color@ == text_or(style.font_color, "white"@)
    &&& compiled.background_color@ == text_or(style.background_color, "black"@)
    &&& compiled.background_alpha == value_or(
        style.background_alpha,
        DEFAULT_OVERLAY_BACKGROUND_ALPHA,
    )
    &&& compiled.padding == value_or(style.padding, DEFAULT_OVERLAY_PADDING_PX)
    &&& compiled.margin == value_or(style.margin, DEFAULT_OVERLAY_MARGIN_PX)
}

/// Whether a compiled layer is the given one, its template expanded and its
/// defaults filled in.
pub open spec fn layer_compiled(
    compiled: CompiledOverlayLayer,
    id: Seq<char>,
    layer: OverlayLayer,
    variables: Map<Seq<char>, Seq<char>>,
) -> bool {
    match layer {
        OverlayLayer::Timestamp { position, timezone, format, style, .. } => {
            &&& compiled matches CompiledOverlayLayer::Timestamp(timestamp)
            &&& timestamp.format@ == text_or(format, standard_timestamp_format(timezone))
            &&& timestamp.timezone == timezone
            &&& style_filled_in(timestamp.style, position, style)
        },
        OverlayLayer::Text { text, position, style } => {
            &&& compiled matches CompiledOverlayLayer::Text(drawn)
            &&& expansion(id, text@, variables) == Ok::<Seq<char>, CompileFailure>(drawn.text@)
            &&& style_filled_in(drawn.style, position, style)
        },
        OverlayLayer::Watermark { image_path, position, max_width_px, opacity, margin } => {
            &&& compiled matches CompiledOverlayLayer::Watermark(watermark)
            &&& watermark.image_path@ == image_path@
            &&& watermark.position == position
            &&& watermark.max_width_px == max_width_px
            &&& watermark.opacity == value_or(opacity, DEFAULT_WATERMARK_OPACITY)
            &&& watermark.margin == value_or(margin, DEFAULT_OVERLAY_MARGIN_PX)
        },
    }
}

/// What is wrong with the template of a layer, if it has one.
pub open spec fn template_failure(
    id: Seq<char>,
    layer: OverlayLayer,
    variables: Map<Seq<char>, Seq<char>>,
) -> Option<CompileFailure> {
    match layer {
        OverlayLayer::Text { text, .. } => match expansion(id, text@, variables) {
            Ok(_) => None,
            Err(failure) => Some(failure),
        },
        _ => None,
    }
}

/// What is wrong with the first layer whose template does not expand.
pub open spec fn templates_failure(
    id: Seq<char>,
    layers: Seq<OverlayLayer>,
    variables: Map<Seq<char>, Seq<char>>,
) -> Option<CompileFailure>
    decreases layers.len(),
{
    if layers.len() == 0 {
        None
    } else if template_failure(id, layers[0], variables) is Some {
        template_failure(id, layers[0], variables)
    } else {
        templates_failure(id, layers.drop_first(), variables)
    }
}

/// Whether a compiled overlay is the given one, layer by layer.
pub open spec fn overlay_compiled(
    compiled: CompiledOverlayProfile,
    id: Seq<char>,
    overlay: OverlayProfile,
    variables: Map<Seq<char>, Seq<char>>,
) -> bool {
    &&& compiled.layers@.len() == overlay.layers@.len()
    &&& forall|i: int|
        0 <= i < overlay.layers@.len() ==> layer_compiled(
            #[trigger] compiled.layers@[i],
            id,
            overlay.layers@[i],
            pipeline_variables(id, variables),
        )
}

/// The format of a timestamp layer that names none.
pub fn default_timestamp_format(timezone: OverlayTimezone) -> (r: String)
    ensures
        r@ == standard_timestamp_format(timezone),
{
    match timezone {
        OverlayTimezone::Utc => "%Y-%m-%d %H:%M:%S UTC".to_owned(),
        OverlayTimezone::Local => "%Y-%m-%d %H:%M:%S".to_owned(),
    }
}

fn owned_or(value: &Option<String>, default_text: &str) -> (r: String)
    ensures
        r@ == text_or(*value, default_text@),
{
    match value {
        Some(value) => value.clone(),
        None => default_text.to_owned(),
    }
}

fn copied_or<T: Copy>(value: Option<T>, default_value: T) -> (r: T)
    ensures
        r == value_or(value, default_value),
{
    match value {
        Some(value) => value,
        None => default_value,
    }
}

/// Fills in the defaults of a look.
pub fn compile_text_overlay_style(position: OverlayPosition, style: &TextOverlayStyle) -> (r:
    CompiledTextOverlayStyle)
    ensures
        style_filled_in(r, position, *style),
{
    CompiledTextOverlayStyle {
        position,
        font_size: copied_or(style.font_size, DEFAULT_OVERLAY_FONT_SIZE_PX),
        font_color: owned_or(&style.font_color, "white"),
        background_color: owned_or(&style.background_color, "black"),
        background_alpha: copied_or(style.background_alpha, DEFAULT_OVERLAY_BACKGROUND_ALPHA),
        padding: copied_or(style.padding, DEFAULT_OVERLAY_PADDING_PX),
        margin: copied_or(style.margin, DEFAULT_OVERLAY_MARGIN_PX),
    }
}

/// Compiles one layer.
pub fn compile_overlay_layer(
    pipeline_id: &str,
    layer: &OverlayLayer,
    overlay_variables: &StringMap<String>,
) -> (r: Result<CompiledOverlayLayer, CompileError>)
    ensures
        match r {
            Ok(compiled) => template_failure(
                pipeline_id@,
                *layer,
                variable_texts(overlay_variables@),
            ) is None && layer_compiled(
                compiled,
                pipeline_id@,
                *layer,
                variable_texts(overlay_variables@),
            ),
            Err(error) => template_failure(
                pipeline_id@,
                *layer,
                variable_texts(overlay_variables@),
            ) == Some(error@),
        },
{
    match layer {
        OverlayLayer::Timestamp { position, timezone, format, style, .. } => {
            let format = match format {
                Some(format) => format.clone(),
                None => default_timestamp_format(*timezone),
            };
            Ok(
                CompiledOverlayLayer::Timestamp(
                    CompiledTimestampOverlay {
                        format,
                        timezone: *timezone,
                        style: compile_text_overlay_style(*position, style),
                    },
                ),
            )
        },
        OverlayLayer::Text { text, position, style } => {
            match expand_overlay_template(pipeline_id, text.as_str(), overlay_variables) {
                Ok(expanded) => Ok(
                    CompiledOverlayLayer::Text(
                        CompiledTextOverlay {
                            text: expanded,
                            style: compile_text_overlay_style(*position, style),
                        },
                    ),
                ),
                Err(error) => Err(error),
            }
        },
        OverlayLayer::Watermark { image_path, position, max_width_px, opacity, margin } => Ok(
            CompiledOverlayLayer::Watermark(
                CompiledWatermarkOverlay {
                    image_path: image_path.clone(),
                    position: *position,
                    max_width_px: *max_width_px,
                    opacity: copied_or(*opacity, DEFAULT_WATERMARK_OPACITY),
                    margin: copied_or(*margin, DEFAULT_OVERLAY_MARGIN_PX),
                },
            ),
        ),
    }
}

/// Compiles the layers of an overlay.
pub fn compile_overlay_profile(
    pipeline_id: &str,
    profile: &OverlayProfile,
    overlay_variables: &StringMap<String>,
) -> (r: Result<CompiledOverlayProfile, CompileError>)
    ensures
        match r {
            Ok(compiled) => {
                &&& templates_failure(
                    pipeline_id@,
                    profile.layers@,
                    pipeline_variables(pipeline_id@, variable_texts(overlay_variables@)),
                ) is None
                &&& overlay_compiled(
                    compiled,
                    pipeline_id@,
                    *profile,
                    variable_texts(overlay_variables@),
                )
            },
            Err(error) => templates_failure(
                pipeline_id@,
                profile.layers@,
                pipeline_variables(pipeline_id@, variable_texts(overlay_variables@)),
            ) == Some(error@),
        },
{
    let resolved = overlay_variables_for_pipeline(pipeline_id, overlay_variables);
    let ghost variables = variable_texts(resolved@);
    let mut layers: Vec<CompiledOverlayLayer> = Vec::new();
    let mut i: usize = 0;
    assert(profile.layers@.skip(0) == profile.layers@);
    while i < profile.layers.len()
        invariant
            i <= profile.layers@.len(),
            layers@.len() == i,
            variables == variable_texts(resolved@),
            variables == pipeline_variables(pipeline_id@, variable_texts(overlay_variables@)),
            templates_failure(pipeline_id@, profile.layers@, variables) == templates_failure(
                pipeline_id@,
                profile.layers@.skip(i as int),
                variables,
            ),
            forall|k: int|
                0 <= k < i ==> layer_compiled(
                    #[trigger] layers@[k],
                    pipeline_id@,
                    profile.layers@[k],
                    variables,
                ),
        decreases profile.layers@.len() - i,
    {
        let ghost rest = profile.layers@.skip(i as int);
        assert(rest[0] == profile.layers@[i as int]);
        assert(rest.drop_first() == profile.layers@.skip(i + 1));
        match compile_overlay_layer(pipeline_id, &profile.layers[i], &resolved) {
            Ok(layer) => {
                layers.push(layer);
            },
            Err(error) => {
                return Err(error);
            },
        }
        i += 1;
    }
    Ok(CompiledOverlayProfile { layers })
}

// ---------------------------------------------------------------------------
// Laws
// ---------------------------------------------------------------------------

/// Whether a text holds no brace.
pub open spec fn brace_free(s: Seq<char>) -> bool {
    forall|i: int| 0 <= i < s.len() ==> s[i] != '{' && #[trigger] s[i] != '}'
}

/// A template without braces expands to itself, whatever the variables are.
pub proof fn plain_templates_stay(
    id: Seq<char>,
    template: Seq<char>,
    variables: Map<Seq<char>, Seq<char>>,
)
    requires
        brace_free(template),
    ensures
        expansion(id, template, variables) == Ok::<Seq<char>, CompileFailure>(template),
    decreases template.len(),
{
    if template.len() > 0 {
        let rest = template.drop_first();
        assert forall|i: int| 0 <= i < rest.len() implies rest[i] != '{' && #[trigger] rest[i]
            != '}' by {
            assert(rest[i] == template[i + 1]);
        }
        plain_templates_stay(id, rest, variables);
        assert(template == seq![template[0]] + rest);
    } else {
        assert(template == Seq::<char>::empty());
    }
}

/// Plain text in front of a template stays in front of what it expands to.
pub proof fn plain_text_stays_in_front(
    id: Seq<char>,
    front: Seq<char>,
    template: Seq<char>,
    variables: Map<Seq<char>, Seq<char>>,
)
    requires
        brace_free(front),
    ensures
        expansion(id, front + template, variables) == (match expansion(id, template, variables) {
            Ok(tail) => Ok::<Seq<char>, CompileFailure>(front + tail),
            Err(failure) => Err(failure),
        }),
    decreases front.len(),
{
    if front.len() == 0 {
        assert(front + template == template);
        if let Ok(tail) = expansion(id, template, variables) {
            assert(front + tail == tail);
        }
    } else {
        let rest = front.drop_first();
        assert forall|i: int| 0 <= i < rest.len() implies rest[i] != '{' && #[trigger] rest[i]
            != '}' by {
            assert(rest[i] == front[i + 1]);
        }
        plain_text_stays_in_front(id, rest, template, variables);
        assert((front + template).drop_first() == rest + template);
        if let Ok(tail) = expansion(id, template, variables) {
            assert(seq![front[0]] + (rest + tail) == front + tail);
        }
    }
}

/// The first `}` behind a name that holds none is where it was put.
proof fn lemma_closing_brace_behind(name: Seq<char>, tail: Seq<char>)
    requires
        brace_free(name),
    ensures
        closing_brace(name + seq!['}'] + tail) == name.len(),
    decreases name.len(),
{
    let s = name + seq!['}'] + tail;
    if name.len() > 0 {
        let rest = name.drop_first();
        assert forall|i: int| 0 <= i < rest.len() implies rest[i] != '{' && #[trigger] rest[i]
            != '}' by {
            assert(rest[i] == name[i + 1]);
        }
        lemma_closing_brace_behind(rest, tail);
        assert(s.drop_first() == rest + seq!['}'] + tail);
        assert(s[0] == name[0]);
    } else {
        assert(s[0] == '}');
    }
}

/// A placeholder stands for the value of its variable, whatever white space stands
/// around the name inside the braces.
pub proof fn placeholders_stand_for_values(
    id: Seq<char>,
    name: Seq<char>,
    template: Seq<char>,
    variables: Map<Seq<char>, Seq<char>>,
)
    requires
        brace_free(name),
        variables.dom().contains(text::trimmed(name)),
    ensures
        expansion(id, seq!['{'] + name + seq!['}'] + template, variables) == (match expansion(
            id,
            template,
            variables,
        ) {
            Ok(tail) => Ok::<Seq<char>, CompileFailure>(variables[text::trimmed(name)] + tail),
            Err(failure) => Err(failure),
        }),
{
    let whole = seq!['{'] + name + seq!['}'] + template;
    let rest = whole.drop_first();
    assert(rest == name + seq!['}'] + template);
    lemma_closing_brace_behind(name, template);
    assert(rest.take(name.len() as int) == name);
    assert(rest.skip((name.len() + 1) as int) == template);
}

/// Every template may name the pipeline it belongs to.
pub proof fn pipelines_can_name_themselves(
    id: Seq<char>,
    variables: Map<Seq<char>, Seq<char>>,
)
    ensures
        expansion(id, "{camera_id}"@, pipeline_variables(id, variables)) == Ok::<
            Seq<char>,
            CompileFailure,
        >(id),
        expansion(id, "{pipeline_id}"@, pipeline_variables(id, variables)) == Ok::<
            Seq<char>,
            CompileFailure,
        >(id),
{
    let all = pipeline_variables(id, variables);
    reveal_strlit("camera_id");
    reveal_strlit("pipeline_id");
    reveal_strlit("{camera_id}");
    reveal_strlit("{pipeline_id}");
    assert("{camera_id}"@ == seq!['{'] + "camera_id"@ + seq!['}'] + Seq::<char>::empty());
    assert("{pipeline_id}"@ == seq!['{'] + "pipeline_id"@ + seq!['}'] + Seq::<char>::empty());
    placeholders_stand_for_values(id, "camera_id"@, Seq::empty(), all);
    placeholders_stand_for_values(id, "pipeline_id"@, Seq::empty(), all);
    assert(id + Seq::<char>::empty() == id);
}

/// A placeholder for an unknown variable, one that does not end, and a closing brace
/// without an opening one are refused, whatever plain text stands in front and whatever
/// follows.
pub proof fn broken_templates_are_refused(
    id: Seq<char>,
    front: Seq<char>,
    name: Seq<char>,
    rest: Seq<char>,
    variables: Map<Seq<char>, Seq<char>>,
)
    requires
        brace_free(front),
        brace_free(name),
    ensures
        !variables.dom().contains(text::trimmed(name)) ==> (expansion(
            id,
            front + (seq!['{'] + name + seq!['}'] + rest),
            variables,
        ) matches Err(CompileFailure::InvalidConfiguration(message)) && text::has_substring(
            message,
            text::trimmed(name),
        )),
        expansion(id, front + (seq!['{'] + name), variables) is Err,
        expansion(id, front + (seq!['}'] + rest), variables) is Err,
{
    let placeholder = seq!['{'] + name + seq!['}'] + rest;
    plain_text_stays_in_front(id, front, placeholder, variables);
    assert(placeholder.drop_first() == name + seq!['}'] + rest);
    lemma_closing_brace_behind(name, rest);
    assert((name + seq!['}'] + rest).take(name.len() as int) == name);
    let key = text::trimmed(name);
    text::parts_of_a_text_are_found(
        "pipeline '"@ + id + "' overlay template references unknown variable '"@,
        key,
        "'"@,
    );
    let open = seq!['{'] + name;
    plain_text_stays_in_front(id, front, open, variables);
    assert(open.drop_first() == name);
    lemma_no_closing_brace(name);
    let closed = seq!['}'] + rest;
    plain_text_stays_in_front(id, front, closed, variables);
}

proof fn lemma_no_closing_brace(name: Seq<char>)
    requires
        brace_free(name),
    ensures
        closing_brace(name) == name.len(),
    decreases name.len(),
{
    if name.len() > 0 {
        let rest = name.drop_first();
        assert forall|i: int| 0 <= i < rest.len() implies rest[i] != '{' && #[trigger] rest[i]
            != '}' by {
            assert(rest[i] == name[i + 1]);
        }
        lemma_no_closing_brace(rest);
    }
}

/// A pipeline's own name stands for both of its names, even where a variable has one of
/// them; every other variable stays as it is, and no others come.
pub proof fn only_its_own_names_are_added(
    id: Seq<char>,
    variables: Map<Seq<char>, Seq<char>>,
    name: Seq<char>,
)
    ensures
        ({
            let all = pipeline_variables(id, variables);
            if name == "camera_id"@ || name == "pipeline_id"@ {
                all.dom().contains(name) && all[name] == id
            } else {
                all.dom().contains(name) == variables.dom().contains(name) && (
                variables.dom().contains(name) ==> all[name] == variables[name])
            }
        }),
{
}

/// What a style sets is kept, and only what it leaves open takes the default.
pub proof fn styles_keep_what_they_set(
    compiled: CompiledTextOverlayStyle,
    position: OverlayPosition,
    style: TextOverlayStyle,
)
    requires
        style_filled_in(compiled, position, style),
    ensures
        compiled.position == position,
        style.font_size matches Some(given) ==> compiled.font_size == given,
        style.font_size is None ==> compiled.font_size == 18,
        style.font_color matches Some(given) ==> compiled.font_color@ == given@,
        style.font_color is None ==> compiled.font_color@ == "white"@,
        style.background_color matches Some(given) ==> compiled.background_color@ == given@,
        style.background_color is None ==> compiled.background_color@ == "black"@,
        style.background_alpha matches Some(given) ==> compiled.background_alpha == given,
        style.background_alpha is None ==> compiled.background_alpha == 60,
        style.padding matches Some(given) ==> compiled.padding == given,
        style.padding is None ==> compiled.padding == 6,
        style.margin matches Some(given) ==> compiled.margin == given,
        style.margin is None ==> compiled.margin == 12,
{
}

/// A layer compiles to one of its own kind, at its own position, with what it sets.
pub proof fn layers_keep_their_kind(
    compiled: CompiledOverlayLayer,
    id: Seq<char>,
    layer: OverlayLayer,
    variables: Map<Seq<char>, Seq<char>>,
)
    requires
        layer_compiled(compiled, id, layer, variables),
    ensures
        match layer {
            OverlayLayer::Timestamp { position, timezone, format, .. } => {
                &&& compiled matches CompiledOverlayLayer::Timestamp(timestamp)
                &&& timestamp.timezone == timezone
                &&& timestamp.style.position == position
                &&& (format matches Some(given) ==> timestamp.format@ == given@)
                &&& (format is None && timezone == OverlayTimezone::Utc ==> text::has_suffix(
                    timestamp.format@,
                    " UTC"@,
                ))
                &&& (format is None && timezone == OverlayTimezone::Local ==> timestamp.format@
                    + " UTC"@ == standard_timestamp_format(OverlayTimezone::Utc))
            },
            OverlayLayer::Text { text, position, .. } => {
                &&& compiled matches CompiledOverlayLayer::Text(drawn)
                &&& drawn.style.position == position
                &&& (brace_free(text@) ==> drawn.text@ == text@)
            },
            OverlayLayer::Watermark { image_path, position, max_width_px, opacity, margin } => {
                &&& compiled matches CompiledOverlayLayer::Watermark(watermark)
                &&& watermark.image_path@ == image_path@
                &&& watermark.position == position
                &&& watermark.max_width_px == max_width_px
                &&& (opacity matches Some(given) ==> watermark.opacity == given)
                &&& (opacity is None ==> watermark.opacity == 100)
                &&& (margin matches Some(given) ==> watermark.margin == given)
                &&& (margin is None ==> watermark.margin == 12)
            },
        },
{
    reveal_strlit(" UTC");
    reveal_strlit("%Y-%m-%d %H:%M:%S UTC");
    reveal_strlit("%Y-%m-%d %H:%M:%S");
    assert("%Y-%m-%d %H:%M:%S"@ + " UTC"@ == "%Y-%m-%d %H:%M:%S UTC"@);
    text::parts_of_a_text_are_found("%Y-%m-%d %H:%M:%S"@, " UTC"@, Seq::empty());
    if let OverlayLayer::Text { text, .. } = layer {
        if brace_free(text@) {
            plain_templates_stay(id, text@, variables);
        }
    }
}

/// The layers of an overlay compile together exactly if the text of each of them expands;
/// pictures and times never stand in the way. The first that fails is reported.
pub proof fn layers_compile_one_by_one(
    id: Seq<char>,
    layers: Seq<OverlayLayer>,
    variables: Map<Seq<char>, Seq<char>>,
)
    ensures
        templates_failure(id, layers, variables) is None <==> forall|i: int|
            0 <= i < layers.len() ==> (#[trigger] layers[i] matches OverlayLayer::Text {
                text,
                ..
            } ==> expansion(id, text@, variables) is Ok),
        templates_failure(id, layers, variables) matches Some(failure) ==> exists|at: int|
            {
                &&& 0 <= at < layers.len()
                &&& template_failure(id, #[trigger] layers[at], variables) == Some(failure)
                &&& forall|i: int|
                    0 <= i < at ==> template_failure(
                        id,
                        #[trigger] layers[i],
                        variables,
                    ) is None
            },
    decreases layers.len(),
{
    if layers.len() > 0 {
        let rest = layers.drop_first();
        layers_compile_one_by_one(id, rest, variables);
        assert(forall|i: int| 0 <= i < rest.len() ==> rest[i] == layers[i + 1]);
        if template_failure(id, layers[0], variables) is Some {
            assert(layers[0] is Text);
        } else {
            if templates_failure(id, rest, variables) is None {
                assert forall|i: int| 0 <= i < layers.len() implies (
                #[trigger] layers[i] matches OverlayLayer::Text { text, .. } ==> expansion(
                    id,
                    text@,
                    variables,
                ) is Ok) by {
                    if i > 0 {
                        assert(rest[i - 1] == layers[i]);
                    }
                }
            } else {
                let failure = templates_failure(id, rest, variables)->0;
                let at = choose|at: int|
                    {
                        &&& 0 <= at < rest.len()
                        &&& template_failure(id, #[trigger] rest[at], variables) == Some(failure)
                        &&& forall|i: int|
                            0 <= i < at ==> template_failure(
                                id,
                                #[trigger] rest[i],
                                variables,
                            ) is None
                    };
                assert(template_failure(id, layers[at + 1], variables) == Some(failure));
                assert forall|i: int| 0 <= i < at + 1 implies template_failure(
                    id,
                    #[trigger] layers[i],
                    variables,
                ) is None by {
                    if i > 0 {
                        assert(rest[i - 1] == layers[i]);
                    }
                }
                assert(layers[at + 1] is Text);
            }
        }
    }
}

/// The layers of an overlay compile one for one and in their order, each with the names of
/// its own pipeline.
pub proof fn layers_compile_one_for_one(
    compiled: CompiledOverlayProfile,
    id: Seq<char>,
    overlay: OverlayProfile,
    variables: Map<Seq<char>, Seq<char>>,
    at: int,
)
    requires
        overlay_compiled(compiled, id, overlay, variables),
        0 <= at < overlay.layers@.len(),
    ensures
        compiled.layers@.len() == overlay.layers@.len(),
        compiled.layers@[at] is Timestamp <==> overlay.layers@[at] is Timestamp,
        compiled.layers@[at] is Text <==> overlay.layers@[at] is Text,
        compiled.layers@[at] is Watermark <==> overlay.layers@[at] is Watermark,
        layer_compiled(
            compiled.layers@[at],
            id,
            overlay.layers@[at],
            variables.insert("camera_id"@, id).insert("pipeline_id"@, id),
        ),
{
}

/// A template is expanded piece by piece: plain text stays, a placeholder becomes the value
/// of its variable, and one for an unknown variable is refused.
pub proof fn templates_are_expanded(
    pipeline_id: &str,
    template: &str,
    front: Seq<char>,
    name: Seq<char>,
    back: Seq<char>,
    overlay_variables: &StringMap<String>,
    r: Result<String, CompileError>,
)
    requires
        brace_free(front),
        brace_free(name),
        brace_free(back),
        template@ == front + (seq!['{'] + name + seq!['}'] + back),
        call_ensures(expand_overlay_template, (pipeline_id, template, overlay_variables), r),
    ensures
        overlay_variables@.dom().contains(text::trimmed(name)) ==> (r matches Ok(output)
            && output@ == front + (overlay_variables@[text::trimmed(name)]@ + back)),
        !overlay_variables@.dom().contains(text::trimmed(name)) ==> r is Err,
{
    let variables = variable_texts(overlay_variables@);
    plain_templates_stay(pipeline_id@, back, variables);
    plain_text_stays_in_front(
        pipeline_id@,
        front,
        seq!['{'] + name + seq!['}'] + back,
        variables,
    );
    assert(variables.dom() =~= overlay_variables@.dom());
    if overlay_variables@.dom().contains(text::trimmed(name)) {
        placeholders_stand_for_values(pipeline_id@, name, back, variables);
    } else {
        broken_templates_are_refused(pipeline_id@, front, name, back, variables);
    }
}

} // verus!
