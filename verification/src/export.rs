//! How a drawing is written down as an SVG document: the text of a path's
//! data, and the attributes of the document, of a layer's group and of a
//! path's element.

use crate::aabb::Aabb;
use crate::canvas::{CanvasSpace, LayerView, Rgb};
use crate::decimal::{natural_text, push_natural, push_thousandths, thousandths_text};
use crate::path::{LineCommand, Path};
use crate::svgdoc::{
    document_attributes, document_children, document_new, document_set, group_attributes,
    group_children, group_new, group_set, path_attributes, path_element_new, path_element_set,
};
use crate::units::{Millis, Paper, SvgUnit};
use svg::node::element::Path as PathElement;
use svg::node::element::{Group, SVG};
use vstd::prelude::*;

verus! {

/// The texts one after the other, with the separator between every two.
pub open spec fn joined(parts: Seq<Seq<char>>, separator: Seq<char>) -> Seq<char>
    decreases parts.len(),
{
    if parts.len() == 0 {
        Seq::empty()
    } else if parts.len() == 1 {
        parts[0]
    } else {
        joined(parts.drop_last(), separator) + separator + parts.last()
    }
}

/// What a flag of an arc counts as among the numbers of its command: one
/// or zero.
pub open spec fn flag_number(flag: bool) -> i64 {
    if flag {
        1000
    } else {
        0
    }
}

/// The letter that stands for the command in the data of a path: a capital
/// for a command that carries positions, a small letter for one that
/// carries displacements.
pub open spec fn command_letter<U>(c: LineCommand<i64, U>) -> Seq<char> {
    match c {
        LineCommand::MoveTo(_) => "M"@,
        LineCommand::MoveBy(_) => "m"@,
        LineCommand::LineTo(_) => "L"@,
        LineCommand::LineBy(_) => "l"@,
        LineCommand::HorizontalLineTo(_) => "H"@,
        LineCommand::HorizontalLineBy(_) => "h"@,
        LineCommand::VerticalLineTo(_) => "V"@,
        LineCommand::VerticalLineBy(_) => "v"@,
        LineCommand::Close => "z"@,
        LineCommand::CubicBezierTo { .. } => "C"@,
        LineCommand::CubicBezierBy { .. } => "c"@,
        LineCommand::SmoothCubicBezierTo { .. } => "S"@,
        LineCommand::SmoothCubicBezierBy { .. } => "s"@,
        LineCommand::QuadraticBezierTo { .. } => "Q"@,
        LineCommand::QuadraticBezierBy { .. } => "q"@,
        LineCommand::SmoothQuadraticBezierTo(_) => "T"@,
        LineCommand::SmoothQuadraticBezierBy(_) => "t"@,
        LineCommand::ArcTo { .. } => "A"@,
        LineCommand::ArcBy { .. } => "a"@,
    }
}

/// The numbers that follow the command's letter, in thousandths: the
/// control points before the end point, the horizontal coordinate of a
/// point before the vertical one, and for an arc the two radii, the
/// rotation and the two flags before the end point.
pub open spec fn command_numbers<U>(c: LineCommand<i64, U>) -> Seq<i64> {
    match c {
        LineCommand::MoveTo(p) => seq![p.x, p.y],
        LineCommand::MoveBy(v) => seq![v.x, v.y],
        LineCommand::LineTo(p) => seq![p.x, p.y],
        LineCommand::LineBy(v) => seq![v.x, v.y],
        LineCommand::HorizontalLineTo(x) => seq![x],
        LineCommand::HorizontalLineBy(dx) => seq![dx],
        LineCommand::VerticalLineTo(y) => seq![y],
        LineCommand::VerticalLineBy(dy) => seq![dy],
        LineCommand::Close => Seq::empty(),
        LineCommand::CubicBezierTo { control_1, control_2, end } => seq![
            control_1.x,
            control_1.y,
            control_2.x,
            control_2.y,
            end.x,
            end.y,
        ],
        LineCommand::CubicBezierBy { control_1, control_2, end } => seq![
            control_1.x,
            control_1.y,
            control_2.x,
            control_2.y,
            end.x,
            end.y,
        ],
        LineCommand::SmoothCubicBezierTo { control, end } => seq![
            control.x,
            control.y,
            end.x,
            end.y,
        ],
        LineCommand::SmoothCubicBezierBy { control, end } => seq![
            control.x,
            control.y,
            end.x,
            end.y,
        ],
        LineCommand::QuadraticBezierTo { control, end } => seq![control.x, control.y, end.x, end.y],
        LineCommand::QuadraticBezierBy { control, end } => seq![control.x, control.y, end.x, end.y],
        LineCommand::SmoothQuadraticBezierTo(p) => seq![p.x, p.y],
        LineCommand::SmoothQuadraticBezierBy(v) => seq![v.x, v.y],
        LineCommand::ArcTo { x_radius, y_radius, x_axis_rotation, large_arc_flag, sweep_flag, end } => seq![
            x_radius,
            y_radius,
            x_axis_rotation,
            flag_number(large_arc_flag),
            flag_number(sweep_flag),
            end.x,
            end.y,
        ],
        LineCommand::ArcBy { x_radius, y_radius, x_axis_rotation, large_arc_flag, sweep_flag, end } => seq![
            x_radius,
            y_radius,
            x_axis_rotation,
            flag_number(large_arc_flag),
            flag_number(sweep_flag),
            end.x,
            end.y,
        ],
    }
}

/// The decimal text of each number.
pub open spec fn number_texts(numbers: Seq<i64>) -> Seq<Seq<char>> {
    numbers.map_values(|n: i64| thousandths_text(n as int))
}

/// The text of a command in the data of a path: its letter, then its
/// numbers with a comma between every two.
pub open spec fn command_text<U>(c: LineCommand<i64, U>) -> Seq<char> {
    command_letter(c) + joined(number_texts(command_numbers(c)), ","@)
}

/// The text of each command.
pub open spec fn command_texts<U>(commands: Seq<LineCommand<i64, U>>) -> Seq<Seq<char>> {
    commands.map_values(|c: LineCommand<i64, U>| command_text(c))
}

/// The data of a path: the text of each command, with a blank between
/// every two.
pub open spec fn data_text<U>(commands: Seq<LineCommand<i64, U>>) -> Seq<char> {
    joined(command_texts(commands), " "@)
}

/// The letter that stands for the command in the data of a path.
fn letter_of<U>(c: &LineCommand<i64, U>) -> (s: &'static str)
    ensures
        s@ == command_letter(*c),
{
    match c {
        LineCommand::MoveTo(_) => "M",
        LineCommand::MoveBy(_) => "m",
        LineCommand::LineTo(_) => "L",
        LineCommand::LineBy(_) => "l",
        LineCommand::HorizontalLineTo(_) => "H",
        LineCommand::HorizontalLineBy(_) => "h",
        LineCommand::VerticalLineTo(_) => "V",
        LineCommand::VerticalLineBy(_) => "v",
        LineCommand::Close => "z",
        LineCommand::CubicBezierTo { .. } => "C",
        LineCommand::CubicBezierBy { .. } => "c",
        LineCommand::SmoothCubicBezierTo { .. } => "S",
        LineCommand::SmoothCubicBezierBy { .. } => "s",
        LineCommand::QuadraticBezierTo { .. } => "Q",
        LineCommand::QuadraticBezierBy { .. } => "q",
        LineCommand::SmoothQuadraticBezierTo(_) => "T",
        LineCommand::SmoothQuadraticBezierBy(_) => "t",
        LineCommand::ArcTo { .. } => "A",
        LineCommand::ArcBy { .. } => "a",
    }
}

/// The numbers that follow the command's letter.
fn numbers_of<U>(c: &LineCommand<i64, U>) -> (numbers: Vec<i64>)
    ensures
        numbers@ == command_numbers(*c),
{
    let mut numbers: Vec<i64> = Vec::new();
    match c {
        LineCommand::MoveTo(p) | LineCommand::LineTo(p) | LineCommand::SmoothQuadraticBezierTo(
            p,
        ) => {
            numbers.push(p.x);
            numbers.push(p.y);
        },
        LineCommand::MoveBy(v) | LineCommand::LineBy(v) | LineCommand::SmoothQuadraticBezierBy(
            v,
        ) => {
            numbers.push(v.x);
            numbers.push(v.y);
        },
        LineCommand::HorizontalLineTo(n)
        | LineCommand::HorizontalLineBy(n)
        | LineCommand::VerticalLineTo(n)
        | LineCommand::VerticalLineBy(n) => {
            numbers.push(*n);
        },
        LineCommand::Close => {},
        LineCommand::CubicBezierTo { control_1, control_2, end } => {
            numbers.push(control_1.x);
            numbers.push(control_1.y);
            numbers.push(control_2.x);
            numbers.push(control_2.y);
            numbers.push(end.x);
            numbers.push(end.y);
        },
        LineCommand::CubicBezierBy { control_1, control_2, end } => {
            numbers.push(control_1.x);
            numbers.push(control_1.y);
            numbers.push(control_2.x);
            numbers.push(control_2.y);
            numbers.push(end.x);
            numbers.push(end.y);
        },
        LineCommand::SmoothCubicBezierTo { control, end }
        | LineCommand::QuadraticBezierTo { control, end } => {
            numbers.push(control.x);
            numbers.push(control.y);
            numbers.push(end.x);
            numbers.push(end.y);
        },
        LineCommand::SmoothCubicBezierBy { control, end }
        | LineCommand::QuadraticBezierBy { control, end } => {
            numbers.push(control.x);
            numbers.push(control.y);
            numbers.push(end.x);
            numbers.push(end.y);
        },
        LineCommand::ArcTo { x_radius, y_radius, x_axis_rotation, large_arc_flag, sweep_flag, end } => {
            numbers.push(*x_radius);
            numbers.push(*y_radius);
            numbers.push(*x_axis_rotation);
            numbers.push(if *large_arc_flag { 1000 } else { 0 });
            numbers.push(if *sweep_flag { 1000 } else { 0 });
            numbers.push(end.x);
            numbers.push(end.y);
        },
        LineCommand::ArcBy { x_radius, y_radius, x_axis_rotation, large_arc_flag, sweep_flag, end } => {
            numbers.push(*x_radius);
            numbers.push(*y_radius);
            numbers.push(*x_axis_rotation);
            numbers.push(if *large_arc_flag { 1000 } else { 0 });
            numbers.push(if *sweep_flag { 1000 } else { 0 });
            numbers.push(end.x);
            numbers.push(end.y);
        },
    }
    assert(numbers@ =~= command_numbers(*c));
    numbers
}

/// One text more comes after the texts before it, behind a separator
/// unless it is the first.
proof fn lemma_joined_step(parts: Seq<Seq<char>>, separator: Seq<char>, i: int)
    requires
        0 <= i < parts.len(),
    ensures
        joined(parts.take(i + 1), separator) == if i == 0 {
            parts[i]
        } else {
            joined(parts.take(i), separator) + separator + parts[i]
        },
{
    let now = parts.take(i + 1);
    assert(now.last() == parts[i]);
    assert(now.drop_last() =~= parts.take(i));
    if i == 0 {
        assert(now[0] == parts[i]);
    }
}

/// Write the text of a command at the end of the text.
fn push_command<U>(text: &mut String, c: &LineCommand<i64, U>)
    ensures
        final(text)@ == old(text)@ + command_text(*c),
{
    text.append(letter_of(c));
    let numbers = numbers_of(c);
    let ghost texts = number_texts(numbers@);
    let ghost start = text@;
    let mut i: usize = 0;
    assert(texts.take(0) =~= Seq::empty());
    while i < numbers.len()
        invariant
            i <= numbers@.len(),
            texts == number_texts(numbers@),
            text@ == start + joined(texts.take(i as int), ","@),
        decreases numbers@.len() - i,
    {
        proof {
            lemma_joined_step(texts, ","@, i as int);
        }
        if i > 0 {
            text.append(",");
        }
        push_thousandths(text, numbers[i] as i128);
        assert(text@ =~= start + joined(texts.take(i + 1), ","@));
        i += 1;
    }
    assert(texts.take(i as int) =~= texts);
    assert(text@ =~= old(text)@ + command_text(*c));
}

/// The data of the path: what the attribute `d` of its element holds.
pub fn path_data<U>(path: &Path<i64, U>) -> (text: String)
    ensures
        text@ == data_text(path@),
{
    let mut text = String::new();
    let ghost texts = command_texts(path@);
    let mut i: usize = 0;
    assert(texts.take(0) =~= Seq::empty());
    assert(text@ =~= Seq::empty());
    while i < path.commands.len()
        invariant
            i <= path@.len(),
            texts == command_texts(path@),
            text@ == joined(texts.take(i as int), " "@),
        decreases path@.len() - i,
    {
        proof {
            lemma_joined_step(texts, " "@, i as int);
        }
        if i > 0 {
            text.append(" ");
        }
        push_command(&mut text, &path.commands[i]);
        assert(text@ =~= joined(texts.take(i + 1), " "@));
        i += 1;
    }
    assert(texts.take(i as int) =~= texts);
    text
}

/// The colour as a stroke paint: `rgb(`, the three intensities with commas
/// between them, `)`.
pub open spec fn rgb_text(color: Rgb) -> Seq<char> {
    "rgb("@ + natural_text(color.red as nat) + ","@ + natural_text(color.green as nat) + ","@
        + natural_text(color.blue as nat) + ")"@
}

/// The colour as a stroke paint.
pub fn format_rgb(color: Rgb) -> (text: String)
    ensures
        text@ == rgb_text(color),
{
    let mut text = String::new();
    text.append("rgb(");
    push_natural(&mut text, color.red as u128);
    text.append(",");
    push_natural(&mut text, color.green as u128);
    text.append(",");
    push_natural(&mut text, color.blue as u128);
    text.append(")");
    assert(text@ =~= rgb_text(color));
    text
}

/// The label of the layer with the given number: the layers are counted
/// from one.
pub open spec fn layer_label(id: u64) -> Seq<char> {
    natural_text((id + 1) as nat)
}

/// The attributes of the group that stands for a layer in a document: no
/// fill, the layer's name and label, the stroke colour of its pen, round
/// ends of the strokes, and what makes a drawing program show the group as
/// a layer.
pub open spec fn layer_attributes(id: u64, color: Rgb) -> Map<Seq<char>, Seq<char>> {
    Map::empty().insert("fill"@, "none"@).insert("id"@, "layer"@ + layer_label(id)).insert(
        "inkscape:groupmode"@,
        "layer"@,
    ).insert("inkscape:label"@, layer_label(id)).insert("stroke"@, rgb_text(color)).insert(
        "stroke-linecap"@,
        "round"@,
    ).insert("style"@, "display:inline"@)
}

/// The group that stands for a layer in a document, without the layer's
/// paths.
pub fn layer_group(id: u64, color: Rgb) -> (group: Group)
    ensures
        group_attributes(group) == layer_attributes(id, color),
        group_children(group) == Seq::<(Seq<char>, Map<Seq<char>, Seq<char>>)>::empty(),
{
    let mut label = String::new();
    push_natural(&mut label, id as u128 + 1);
    assert(label@ =~= layer_label(id));
    let mut name = String::new();
    name.append("layer");
    name.append(label.as_str());
    assert(name@ =~= "layer"@ + layer_label(id));
    let stroke = format_rgb(color);
    let group = group_new();
    let group = group_set(group, "fill", "none");
    let group = group_set(group, "id", name.as_str());
    let group = group_set(group, "inkscape:groupmode", "layer");
    let group = group_set(group, "inkscape:label", label.as_str());
    let group = group_set(group, "stroke", stroke.as_str());
    let group = group_set(group, "stroke-linecap", "round");
    let group = group_set(group, "style", "display:inline");
    assert(group_attributes(group) =~= layer_attributes(id, color));
    group
}

/// The attributes of the element that stands for a path in a document:
/// the path's data, and the nib size of the layer's pen as the width of the
/// stroke.
pub open spec fn path_attributes_for(
    commands: Seq<LineCommand<i64, CanvasSpace>>,
    nib_size: Millis,
) -> Map<Seq<char>, Seq<char>> {
    Map::empty().insert("d"@, data_text(commands)).insert(
        "stroke-width"@,
        thousandths_text(nib_size.0 as int),
    )
}

/// The element that stands for a path in a document.
pub fn path_element(path: &Path<i64, CanvasSpace>, nib_size: Millis) -> (element: PathElement)
    ensures
        path_attributes(element) == path_attributes_for(path@, nib_size),
{
    let data = path_data(path);
    let mut width = String::new();
    push_thousandths(&mut width, nib_size.0 as i128);
    assert(width@ =~= thousandths_text(nib_size.0 as int));
    let element = path_element_new();
    let element = path_element_set(element, "d", data.as_str());
    let element = path_element_set(element, "stroke-width", width.as_str());
    assert(path_attributes(element) =~= path_attributes_for(path@, nib_size));
    element
}

/// The view window as the attribute `viewBox` holds it: where it begins on
/// the two axes, its width and its height, with a blank between every two.
pub open spec fn view_box_text(view: Aabb<i64, CanvasSpace>) -> Seq<char> {
    thousandths_text(view.min.x as int) + " "@ + thousandths_text(view.min.y as int) + " "@
        + thousandths_text(view.spec_width()) + " "@ + thousandths_text(view.spec_height())
}

/// A length with the symbol of its unit behind it.
pub open spec fn length_text<Unit: SvgUnit>(length: Unit) -> Seq<char> {
    thousandths_text(length.amount()) + Unit::symbol()
}

/// The attributes of a document: the two namespaces, the view window, and
/// the width and height of the sheet as the size of the document.
pub open spec fn document_attributes_for<Unit: SvgUnit>(
    paper: Paper<Unit>,
    view: Aabb<i64, CanvasSpace>,
) -> Map<Seq<char>, Seq<char>> {
    Map::empty().insert("xmlns"@, "http://www.w3.org/2000/svg"@).insert(
        "xmlns:inkscape"@,
        "http://www.inkscape.org/namespaces/inkscape"@,
    ).insert("viewBox"@, view_box_text(view)).insert("width"@, length_text(paper.width)).insert(
        "height"@,
        length_text(paper.height),
    )
}

/// A document for the sheet and the view window, without layers.
pub fn document_head<Unit: SvgUnit>(paper: &Paper<Unit>, view: &Aabb<i64, CanvasSpace>) -> (document:
    SVG)
    ensures
        document_attributes(document) == document_attributes_for(*paper, *view),
        document_children(document) == Seq::<
            (Seq<char>, Map<Seq<char>, Seq<char>>, Seq<(Seq<char>, Map<Seq<char>, Seq<char>>)>),
        >::empty(),
{
    let mut view_box = String::new();
    push_thousandths(&mut view_box, view.min.x as i128);
    view_box.append(" ");
    push_thousandths(&mut view_box, view.min.y as i128);
    view_box.append(" ");
    push_thousandths(&mut view_box, view.max.x as i128 - view.min.x as i128);
    view_box.append(" ");
    push_thousandths(&mut view_box, view.max.y as i128 - view.min.y as i128);
    assert(view_box@ =~= view_box_text(*view));
    let mut width = String::new();
    push_thousandths(&mut width, paper.width.raw() as i128);
    width.append(Unit::suffix());
    assert(width@ =~= length_text(paper.width));
    let mut height = String::new();
    push_thousandths(&mut height, paper.height.raw() as i128);
    height.append(Unit::suffix());
    assert(height@ =~= length_text(paper.height));
    let document = document_new();
    let document = document_set(
        document,
        "xmlns:inkscape",
        "http://www.inkscape.org/namespaces/inkscape",
    );
    let document = document_set(document, "viewBox", view_box.as_str());
    let document = document_set(document, "width", width.as_str());
    let document = document_set(document, "height", height.as_str());
    assert(document_attributes(document) =~= document_attributes_for(*paper, *view));
    document
}

/// The children of the group that stands for the layer: one `path`
/// element for each path, in the order in which the paths were drawn.
pub open spec fn layer_children(layer: LayerView) -> Seq<(Seq<char>, Map<Seq<char>, Seq<char>>)> {
    layer.paths.map_values(
        |commands: Seq<LineCommand<i64, CanvasSpace>>|
            ("path"@, path_attributes_for(commands, layer.nib_size)),
    )
}

/// The children of the document that stands for the layers: one group
/// `g` for each layer, in the order of the layers.
pub open spec fn exported_layers(layers: Seq<LayerView>) -> Seq<
    (Seq<char>, Map<Seq<char>, Seq<char>>, Seq<(Seq<char>, Map<Seq<char>, Seq<char>>)>),
> {
    layers.map_values(|l: LayerView| ("g"@, layer_attributes(l.id, l.color), layer_children(l)))
}

} // verus!
