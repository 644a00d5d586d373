//! The names the builder syntax knows: tags and attributes, each under the
//! name of the function that builds it.

use vstd::prelude::*;

verus! {

/// The tag names, HTML first, then SVG, each spelled as its builder.
pub open spec fn tag_names() -> Seq<Seq<char>> {
    seq![
        "a"@,
        "abbr"@,
        "address"@,
        "area"@,
        "article"@,
        "aside"@,
        "audio"@,
        "b"@,
        "base"@,
        "bdi"@,
        "bdo"@,
        "blockquote"@,
        "body"@,
        "br"@,
        "button"@,
        "canvas"@,
        "caption"@,
        "cite"@,
        "code"@,
        "col"@,
        "colgroup"@,
        "data"@,
        "datalist"@,
        "dd"@,
        "del"@,
        "details"@,
        "dfn"@,
        "dialog"@,
        "div"@,
        "dl"@,
        "dt"@,
        "em"@,
        "embed"@,
        "fieldset"@,
        "figcaption"@,
        "figure"@,
        "footer"@,
        "form"@,
        "h1"@,
        "h2"@,
        "h3"@,
        "h4"@,
        "h5"@,
        "h6"@,
        "head"@,
        "header"@,
        "hgroup"@,
        "hr"@,
        "html"@,
        "i"@,
        "iframe"@,
        "img"@,
        "input"@,
        "ins"@,
        "kbd"@,
        "label"@,
        "legend"@,
        "li"@,
        "link"@,
        "main"@,
        "map"@,
        "mark"@,
        "menu"@,
        "meta"@,
        "meter"@,
        "nav"@,
        "noscript"@,
        "object"@,
        "ol"@,
        "optgroup"@,
        "option"@,
        "output"@,
        "p"@,
        "param"@,
        "picture"@,
        "pre"@,
        "progress"@,
        "q"@,
        "rp"@,
        "rt"@,
        "ruby"@,
        "s"@,
        "samp"@,
        "script"@,
        "section"@,
        "select"@,
        "slot"@,
        "small"@,
        "source"@,
        "span"@,
        "strong"@,
        "style"@,
        "sub"@,
        "summary"@,
        "sup"@,
        "table"@,
        "tbody"@,
        "td"@,
        "template"@,
        "textarea"@,
        "tfoot"@,
        "th"@,
        "thead"@,
        "time"@,
        "title"@,
        "tr"@,
        "track"@,
        "u"@,
        "ul"@,
        "var"@,
        "video"@,
        "wbr"@,
        "svg"@,
        "animate"@,
        "animateMotion"@,
        "animateTransform"@,
        "circle"@,
        "clipPath"@,
        "defs"@,
        "desc"@,
        "ellipse"@,
        "feBlend"@,
        "feColorMatrix"@,
        "feComponentTransfer"@,
        "feComposite"@,
        "feConvolveMatrix"@,
        "feDiffuseLighting"@,
        "feDisplacementMap"@,
        "feDistantLight"@,
        "feDropShadow"@,
        "feFlood"@,
        "feFuncA"@,
        "feFuncB"@,
        "feFuncG"@,
        "feFuncR"@,
        "feGaussianBlur"@,
        "feImage"@,
        "feMerge"@,
        "feMergeNode"@,
        "feMorphology"@,
        "feOffset"@,
        "fePointLight"@,
        "feSpecularLighting"@,
        "feSpotLight"@,
        "feTile"@,
        "feTurbulence"@,
        "filter"@,
        "foreignObject"@,
        "g"@,
        "image"@,
        "line"@,
        "linearGradient"@,
        "marker"@,
        "mask"@,
        "metadata"@,
        "mpath"@,
        "path"@,
        "pattern"@,
        "polygon"@,
        "polyline"@,
        "radialGradient"@,
        "rect"@,
        "set"@,
        "stop"@,
        "switch"@,
        "symbol"@,
        "text"@,
        "textPath"@,
        "tspan"@,
        "view"@,
    ]
}

/// Tags whose builder has another name: (builder, tag).
pub open spec fn special_tags() -> Seq<(Seq<char>, Seq<char>)> {
    seq![
        ("r#use"@, "use"@),
        ("color_profile"@, "color-profile"@),
        ("font_face"@, "font-face"@),
        ("missing_glyph"@, "missing-glyph"@),
    ]
}

/// The attribute names, HTML first, then SVG, each spelled as its builder.
pub open spec fn attr_names() -> Seq<Seq<char>> {
    seq![
        "accept"@,
        "accesskey"@,
        "action"@,
        "align"@,
        "alt"@,
        "autocomplete"@,
        "autofocus"@,
        "autoplay"@,
        "charset"@,
        "checked"@,
        "class"@,
        "cols"@,
        "colspan"@,
        "content"@,
        "contenteditable"@,
        "controls"@,
        "coords"@,
        "datetime"@,
        "default"@,
        "dir"@,
        "disabled"@,
        "download"@,
        "draggable"@,
        "enctype"@,
        "form"@,
        "headers"@,
        "height"@,
        "hidden"@,
        "high"@,
        "href"@,
        "hreflang"@,
        "id"@,
        "key"@,
        "lang"@,
        "list"@,
        "low"@,
        "max"@,
        "maxlength"@,
        "media"@,
        "method"@,
        "min"@,
        "multiple"@,
        "muted"@,
        "name"@,
        "novalidate"@,
        "open"@,
        "optimum"@,
        "placeholder"@,
        "poster"@,
        "preload"@,
        "readonly"@,
        "rel"@,
        "required"@,
        "reversed"@,
        "rows"@,
        "rowspan"@,
        "sandbox"@,
        "scope"@,
        "selected"@,
        "shape"@,
        "size"@,
        "sizes"@,
        "span"@,
        "src"@,
        "srcdoc"@,
        "srclang"@,
        "srcset"@,
        "start"@,
        "step"@,
        "style"@,
        "tabindex"@,
        "target"@,
        "title"@,
        "usemap"@,
        "value"@,
        "width"@,
        "wrap"@,
        "cx"@,
        "cy"@,
        "d"@,
        "dx"@,
        "dy"@,
        "fill"@,
        "fx"@,
        "fy"@,
        "gradientTransform"@,
        "gradientUnits"@,
        "markerHeight"@,
        "markerUnits"@,
        "markerWidth"@,
        "mode"@,
        "offset"@,
        "opacity"@,
        "operator"@,
        "pathLength"@,
        "patternUnits"@,
        "points"@,
        "preserveAspectRatio"@,
        "r"@,
        "result"@,
        "rx"@,
        "ry"@,
        "stdDeviation"@,
        "stroke"@,
        "transform"@,
        "values"@,
        "version"@,
        "viewBox"@,
        "x"@,
        "x1"@,
        "x2"@,
        "xmlns"@,
        "y"@,
        "y1"@,
        "y2"@,
    ]
}

/// Attributes whose builder has another name: (builder, attribute).
pub open spec fn special_attrs() -> Seq<(Seq<char>, Seq<char>)> {
    seq![
        ("r#type"@, "type"@),
        ("r#for"@, "for"@),
        ("r#loop"@, "loop"@),
        ("r#async"@, "async"@),
        ("r#in"@, "in"@),
        ("accept_charset"@, "accept-charset"@),
        ("http_equiv"@, "http-equiv"@),
        ("clip_path"@, "clip-path"@),
        ("fill_opacity"@, "fill-opacity"@),
        ("fill_rule"@, "fill-rule"@),
        ("flood_color"@, "flood-color"@),
        ("flood_opacity"@, "flood-opacity"@),
        ("font_family"@, "font-family"@),
        ("font_size"@, "font-size"@),
        ("font_style"@, "font-style"@),
        ("font_weight"@, "font-weight"@),
        ("stop_color"@, "stop-color"@),
        ("stop_opacity"@, "stop-opacity"@),
        ("stroke_dasharray"@, "stroke-dasharray"@),
        ("stroke_linecap"@, "stroke-linecap"@),
        ("stroke_linejoin"@, "stroke-linejoin"@),
        ("stroke_opacity"@, "stroke-opacity"@),
        ("stroke_width"@, "stroke-width"@),
        ("text_anchor"@, "text-anchor"@),
        ("xlink_href"@, "xlink:href"@),
    ]
}

pub open spec fn strs_view(v: Seq<&str>) -> Seq<Seq<char>> {
    v.map_values(|s: &str| s@)
}

pub open spec fn pairs_view(v: Seq<(&str, &str)>) -> Seq<(Seq<char>, Seq<char>)> {
    v.map_values(|p: (&str, &str)| (p.0@, p.1@))
}

fn tag_list() -> (r: Vec<&'static str>)
    ensures
        strs_view(r@) == tag_names(),
{
    let v = vec![
        "a",
        "abbr",
        "address",
        "area",
        "article",
        "aside",
        "audio",
        "b",
        "base",
        "bdi",
        "bdo",
        "blockquote",
        "body",
        "br",
        "button",
        "canvas",
        "caption",
        "cite",
        "code",
        "col",
        "colgroup",
        "data",
        "datalist",
        "dd",
        "del",
        "details",
        "dfn",
        "dialog",
        "div",
        "dl",
        "dt",
        "em",
        "embed",
        "fieldset",
        "figcaption",
        "figure",
        "footer",
        "form",
        "h1",
        "h2",
        "h3",
        "h4",
        "h5",
        "h6",
        "head",
        "header",
        "hgroup",
        "hr",
        "html",
        "i",
        "iframe",
        "img",
        "input",
        "ins",
        "kbd",
        "label",
        "legend",
        "li",
        "link",
        "main",
        "map",
        "mark",
        "menu",
        "meta",
        "meter",
        "nav",
        "noscript",
        "object",
        "ol",
        "optgroup",
        "option",
        "output",
        "p",
        "param",
        "picture",
        "pre",
        "progress",
        "q",
        "rp",
        "rt",
        "ruby",
        "s",
        "samp",
        "script",
        "section",
        "select",
        "slot",
        "small",
        "source",
        "span",
        "strong",
        "style",
        "sub",
        "summary",
        "sup",
        "table",
        "tbody",
        "td",
        "template",
        "textarea",
        "tfoot",
        "th",
        "thead",
        "time",
        "title",
        "tr",
        "track",
        "u",
        "ul",
        "var",
        "video",
        "wbr",
        "svg",
        "animate",
        "animateMotion",
        "animateTransform",
        "circle",
        "clipPath",
        "defs",
        "desc",
        "ellipse",
        "feBlend",
        "feColorMatrix",
        "feComponentTransfer",
        "feComposite",
        "feConvolveMatrix",
        "feDiffuseLighting",
        "feDisplacementMap",
        "feDistantLight",
        "feDropShadow",
        "feFlood",
        "feFuncA",
        "feFuncB",
        "feFuncG",
        "feFuncR",
        "feGaussianBlur",
        "feImage",
        "feMerge",
        "feMergeNode",
        "feMorphology",
        "feOffset",
        "fePointLight",
        "feSpecularLighting",
        "feSpotLight",
        "feTile",
        "feTurbulence",
        "filter",
        "foreignObject",
        "g",
        "image",
        "line",
        "linearGradient",
        "marker",
        "mask",
        "metadata",
        "mpath",
        "path",
        "pattern",
        "polygon",
        "polyline",
        "radialGradient",
        "rect",
        "set",
        "stop",
        "switch",
        "symbol",
        "text",
        "textPath",
        "tspan",
        "view",
    ];
    assert(strs_view(v@) =~= tag_names());
    v
}

fn special_tag_list() -> (r: Vec<(&'static str, &'static str)>)
    ensures
        pairs_view(r@) == special_tags(),
{
    let v = vec![
        ("r#use", "use"),
        ("color_profile", "color-profile"),
        ("font_face", "font-face"),
        ("missing_glyph", "missing-glyph"),
    ];
    assert(pairs_view(v@) =~= special_tags());
    v
}

fn attr_list() -> (r: Vec<&'static str>)
    ensures
        strs_view(r@) == attr_names(),
{
    let v = vec![
        "accept",
        "accesskey",
        "action",
        "align",
        "alt",
        "autocomplete",
        "autofocus",
        "autoplay",
        "charset",
        "checked",
        "class",
        "cols",
        "colspan",
        "content",
        "contenteditable",
        "controls",
        "coords",
        "datetime",
        "default",
        "dir",
        "disabled",
        "download",
        "draggable",
        "enctype",
        "form",
        "headers",
        "height",
        "hidden",
        "high",
        "href",
        "hreflang",
        "id",
        "key",
        "lang",
        "list",
        "low",
        "max",
        "maxlength",
        "media",
        "method",
        "min",
        "multiple",
        "muted",
        "name",
        "novalidate",
        "open",
        "optimum",
        "placeholder",
        "poster",
        "preload",
        "readonly",
        "rel",
        "required",
        "reversed",
        "rows",
        "rowspan",
        "sandbox",
        "scope",
        "selected",
        "shape",
        "size",
        "sizes",
        "span",
        "src",
        "srcdoc",
        "srclang",
        "srcset",
        "start",
        "step",
        "style",
        "tabindex",
        "target",
        "title",
        "usemap",
        "value",
        "width",
        "wrap",
        "cx",
        "cy",
        "d",
        "dx",
        "dy",
        "fill",
        "fx",
        "fy",
        "gradientTransform",
        "gradientUnits",
        "markerHeight",
        "markerUnits",
        "markerWidth",
        "mode",
        "offset",
        "opacity",
        "operator",
        "pathLength",
        "patternUnits",
        "points",
        "preserveAspectRatio",
        "r",
        "result",
        "rx",
        "ry",
        "stdDeviation",
        "stroke",
        "transform",
        "values",
        "version",
        "viewBox",
        "x",
        "x1",
        "x2",
        "xmlns",
        "y",
        "y1",
        "y2",
    ];
    assert(strs_view(v@) =~= attr_names());
    v
}

fn special_attr_list() -> (r: Vec<(&'static str, &'static str)>)
    ensures
        pairs_view(r@) == special_attrs(),
{
    let v = vec![
        ("r#type", "type"),
        ("r#for", "for"),
        ("r#loop", "loop"),
        ("r#async", "async"),
        ("r#in", "in"),
        ("accept_charset", "accept-charset"),
        ("http_equiv", "http-equiv"),
        ("clip_path", "clip-path"),
        ("fill_opacity", "fill-opacity"),
        ("fill_rule", "fill-rule"),
        ("flood_color", "flood-color"),
        ("flood_opacity", "flood-opacity"),
        ("font_family", "font-family"),
        ("font_size", "font-size"),
        ("font_style", "font-style"),
        ("font_weight", "font-weight"),
        ("stop_color", "stop-color"),
        ("stop_opacity", "stop-opacity"),
        ("stroke_dasharray", "stroke-dasharray"),
        ("stroke_linecap", "stroke-linecap"),
        ("stroke_linejoin", "stroke-linejoin"),
        ("stroke_opacity", "stroke-opacity"),
        ("stroke_width", "stroke-width"),
        ("text_anchor", "text-anchor"),
        ("xlink_href", "xlink:href"),
    ];
    assert(pairs_view(v@) =~= special_attrs());
    v
}

/// ASCII letters in lower case, anything else as it is.
pub open spec fn ascii_lower(c: char) -> char {
    if 'A' <= c <= 'Z' { ((c as u8) + 32) as char } else { c }
}

/// Equality up to the case of ASCII letters.
pub open spec fn eq_ignore_case(a: Seq<char>, b: Seq<char>) -> bool {
    a.len() == b.len() && forall|i: int| 0 <= i < a.len() ==> ascii_lower(#[trigger] a[i]) == ascii_lower(b[i])
}

/// The first position from `i` on whose name equals `s` up to ASCII case,
/// or the length of `names`.
pub open spec fn first_ci(names: Seq<Seq<char>>, s: Seq<char>, i: int) -> int
    decreases names.len() - i,
{
    if i < 0 || i >= names.len() {
        names.len() as int
    } else if eq_ignore_case(names[i], s) {
        i
    } else {
        first_ci(names, s, i + 1)
    }
}

/// The first position from `i` on whose second name equals `s` up to ASCII
/// case, or the length of `pairs`.
pub open spec fn first_ci_pair(pairs: Seq<(Seq<char>, Seq<char>)>, s: Seq<char>, i: int) -> int
    decreases pairs.len() - i,
{
    if i < 0 || i >= pairs.len() {
        pairs.len() as int
    } else if eq_ignore_case(pairs[i].1, s) {
        i
    } else {
        first_ci_pair(pairs, s, i + 1)
    }
}

/// The builder of `s`: the first plain name equal to it up to ASCII case,
/// else the builder of the first special name equal to it, else none.
pub open spec fn lookup(names: Seq<Seq<char>>, pairs: Seq<(Seq<char>, Seq<char>)>, s: Seq<char>) -> Option<Seq<char>> {
    let i = first_ci(names, s, 0);
    if i < names.len() {
        Some(names[i])
    } else {
        let j = first_ci_pair(pairs, s, 0);
        if j < pairs.len() { Some(pairs[j].0) } else { None }
    }
}

fn lower(c: char) -> (r: char)
    ensures
        r == ascii_lower(c),
{
    if 'A' <= c && c <= 'Z' {
        ((c as u8) + 32) as char
    } else {
        c
    }
}

/// Whether two strings are equal up to the case of ASCII letters.
pub fn eq_ignore_ascii_case(a: &str, b: &str) -> (r: bool)
    ensures
        r == eq_ignore_case(a@, b@),
{
    let n = a.unicode_len();
    if n != b.unicode_len() {
        return false;
    }
    let mut i: usize = 0;
    while i < n
        invariant
            n == a@.len(),
            n == b@.len(),
            0 <= i <= n,
            forall|k: int| 0 <= k < i ==> ascii_lower(#[trigger] a@[k]) == ascii_lower(b@[k]),
        decreases n - i,
    {
        if lower(a.get_char(i)) != lower(b.get_char(i)) {
            return false;
        }
        i = i + 1;
    }
    true
}

fn find_name(names: &Vec<&'static str>, pairs: &Vec<(&'static str, &'static str)>, s: &str) -> (r: Option<String>)
    ensures
        match r {
            Some(t) => lookup(strs_view(names@), pairs_view(pairs@), s@) == Some(t@),
            None => lookup(strs_view(names@), pairs_view(pairs@), s@) is None,
        },
{
    let ghost nv = strs_view(names@);
    let ghost pv = pairs_view(pairs@);
    let mut i: usize = 0;
    while i < names.len()
        invariant
            nv == strs_view(names@),
            0 <= i <= names@.len(),
            first_ci(nv, s@, 0) == first_ci(nv, s@, i as int),
        decreases names@.len() - i,
    {
        if eq_ignore_ascii_case(names[i], s) {
            return Some(names[i].to_string());
        }
        i = i + 1;
    }
    let mut j: usize = 0;
    while j < pairs.len()
        invariant
            nv == strs_view(names@),
            pv == pairs_view(pairs@),
            first_ci(nv, s@, 0) == nv.len(),
            0 <= j <= pairs@.len(),
            first_ci_pair(pv, s@, 0) == first_ci_pair(pv, s@, j as int),
        decreases pairs@.len() - j,
    {
        if eq_ignore_ascii_case(pairs[j].1, s) {
            return Some(pairs[j].0.to_string());
        }
        j = j + 1;
    }
    None
}

/// The builder of a tag, looked up without regard to ASCII case.
pub fn match_tag(tag: &str) -> (r: Option<String>)
    ensures
        match r {
            Some(t) => lookup(tag_names(), special_tags(), tag@) == Some(t@),
            None => lookup(tag_names(), special_tags(), tag@) is None,
        },
{
    let names = tag_list();
    let pairs = special_tag_list();
    find_name(&names, &pairs, tag)
}

/// The builder of an attribute, looked up without regard to ASCII case.
pub fn match_attribute(key: &str) -> (r: Option<String>)
    ensures
        match r {
            Some(t) => lookup(attr_names(), special_attrs(), key@) == Some(t@),
            None => lookup(attr_names(), special_attrs(), key@) is None,
        },
{
    let names = attr_list();
    let pairs = special_attr_list();
    find_name(&names, &pairs, key)
}

} // verus!
