//! The XML parts of a PowerPoint (`.pptx`) slideshow that follow from the slides alone.
use vstd::prelude::*;
use crate::text::{nat_digits, push_nat, push_str, string_views};
use crate::export::{html_escape, xml_escaped};

verus! {

/// Start of `[Content_Types].xml`, up to the slide entries.
pub const CT_HEAD: &'static str = "<?xml version=\"1.0\" encoding=\"UTF-8\" standalone=\"yes\"?>\n<Types xmlns=\"http://schemas.openxmlformats.org/package/2006/content-types\">\n  <Default Extension=\"rels\" ContentType=\"application/vnd.openxmlformats-package.relationships+xml\"/>\n  <Default Extension=\"xml\" ContentType=\"application/xml\"/>\n  <Default Extension=\"png\" ContentType=\"image/png\"/>\n  <Default Extension=\"jpg\" ContentType=\"image/jpeg\"/>\n  <Default Extension=\"jpeg\" ContentType=\"image/jpeg\"/>\n  <Override PartName=\"/ppt/presentation.xml\" ContentType=\"application/vnd.openxmlformats-officedocument.presentationml.presentation.main+xml\"/>\n  <Override PartName=\"/ppt/slideMasters/slideMaster1.xml\" ContentType=\"application/vnd.openxmlformats-officedocument.presentationml.slideMaster+xml\"/>\n  <Override PartName=\"/ppt/slideLayouts/slideLayout1.xml\" ContentType=\"application/vnd.openxmlformats-officedocument.presentationml.slideLayout+xml\"/>\n  <Override PartName=\"/ppt/theme/theme1.xml\" ContentType=\"application/vnd.openxmlformats-officedocument.theme+xml\"/>\n";

/// Text before the number of a slide entry of `[Content_Types].xml`.
pub const CT_ENTRY_START: &'static str = "  <Override PartName=\"/ppt/slides/slide";

/// Text after the number of a slide entry of `[Content_Types].xml`.
pub const CT_ENTRY_END: &'static str = ".xml\" ContentType=\"application/vnd.openxmlformats-officedocument.presentationml.slide+xml\"/>\n";

/// End of `[Content_Types].xml`.
pub const CT_TAIL: &'static str = "</Types>";

/// Start of `ppt/presentation.xml`, up to the slide id list entries.
pub const PRES_HEAD: &'static str = "<?xml version=\"1.0\" encoding=\"UTF-8\" standalone=\"yes\"?>\n<p:presentation xmlns:a=\"http://schemas.openxmlformats.org/drawingml/2006/main\" xmlns:r=\"http://schemas.openxmlformats.org/officeDocument/2006/relationships\" xmlns:p=\"http://schemas.openxmlformats.org/presentationml/2006/main\">\n  <p:sldMasterIdLst>\n    <p:sldMasterId id=\"2147483648\" r:id=\"rId1\"/>\n  </p:sldMasterIdLst>\n  <p:sldIdLst>\n";

/// Text before the id of a slide id entry.
pub const PRES_ENTRY_START: &'static str = "    <p:sldId id=\"";

/// Text between the id and the relationship number of a slide id entry.
pub const PRES_ENTRY_MID: &'static str = "\" r:id=\"rId";

/// Text after a slide id entry.
pub const PRES_ENTRY_END: &'static str = "\"/>\n";

/// End of `ppt/presentation.xml`: the slide size (16:9, in EMU) and notes size.
pub const PRES_TAIL: &'static str = "  </p:sldIdLst>\n  <p:sldSz cx=\"12192000\" cy=\"6858000\" type=\"custom\"/>\n  <p:notesSz cx=\"6858000\" cy=\"9144000\"/>\n</p:presentation>";

/// Start of `ppt/_rels/presentation.xml.rels`, with the master's relationship.
pub const PRES_RELS_HEAD: &'static str = "<?xml version=\"1.0\" encoding=\"UTF-8\" standalone=\"yes\"?>\n<Relationships xmlns=\"http://schemas.openxmlformats.org/package/2006/relationships\">\n  <Relationship Id=\"rId1\" Type=\"http://schemas.openxmlformats.org/officeDocument/2006/relationships/slideMaster\" Target=\"slideMasters/slideMaster1.xml\"/>\n";

/// Text before the relationship number of a slide relationship.
pub const PRES_RELS_ENTRY_START: &'static str = "  <Relationship Id=\"rId";

/// Text between the relationship number and the slide number.
pub const PRES_RELS_ENTRY_MID: &'static str = "\" Type=\"http://schemas.openxmlformats.org/officeDocument/2006/relationships/slide\" Target=\"slides/slide";

/// Text after a slide relationship.
pub const PRES_RELS_ENTRY_END: &'static str = ".xml\"/>\n";

/// End of a relationships part.
pub const RELS_TAIL: &'static str = "</Relationships>";

/// Start of a slide part, up to its name.
pub const SLIDE_HEAD: &'static str = "<?xml version=\"1.0\" encoding=\"UTF-8\" standalone=\"yes\"?>\n<p:sld xmlns:a=\"http://schemas.openxmlformats.org/drawingml/2006/main\" xmlns:r=\"http://schemas.openxmlformats.org/officeDocument/2006/relationships\" xmlns:p=\"http://schemas.openxmlformats.org/presentationml/2006/main\">\n  <p:cSld name=\"";

/// Text between a slide's name and its background.
pub const SLIDE_AFTER_NAME: &'static str = "\">\n";

/// Text between a slide's background and its shapes.
pub const SLIDE_AFTER_BACKGROUND: &'static str = "    <p:spTree>\n      <p:nvGrpSpPr><p:cNvPr id=\"1\" name=\"\"/><p:cNvGrpSpPr/><p:nvPr/></p:nvGrpSpPr>\n      <p:grpSpPr><a:xfrm><a:off x=\"0\" y=\"0\"/><a:ext cx=\"0\" cy=\"0\"/><a:chOff x=\"0\" y=\"0\"/><a:chExt cx=\"0\" cy=\"0\"/></a:xfrm></p:grpSpPr>\n";

/// End of a slide part.
pub const SLIDE_TAIL: &'static str = "    </p:spTree>\n  </p:cSld>\n  <p:clrMapOvr><a:masterClrMapping/></p:clrMapOvr>\n</p:sld>";

/// Start of a slide's relationships part.
pub const SLIDE_RELS_HEAD: &'static str = "<?xml version=\"1.0\" encoding=\"UTF-8\" standalone=\"yes\"?>\n<Relationships xmlns=\"http://schemas.openxmlformats.org/package/2006/relationships\">\n";

/// Text before the id of a slide relationship.
pub const SLIDE_REL_ID: &'static str = "  <Relationship Id=\"";

/// Text between the id and the type of a slide relationship.
pub const SLIDE_REL_TYPE: &'static str = "\" Type=\"";

/// Text between the type and the target of a slide relationship.
pub const SLIDE_REL_TARGET: &'static str = "\" Target=\"";

/// Text after a slide relationship.
pub const SLIDE_REL_END: &'static str = "\"/>\n";

/// The slide entries `1..=n` of `[Content_Types].xml`.
pub open spec fn content_type_entries(n: nat) -> Seq<char>
    decreases n,
{
    if n == 0 {
        Seq::empty()
    } else {
        content_type_entries((n - 1) as nat) + CT_ENTRY_START@ + nat_digits(n) + CT_ENTRY_END@
    }
}

/// The slide id entries `1..=n` of `ppt/presentation.xml` (slide `i` has id `255 + i` and
/// relationship `rId{i + 1}`).
pub open spec fn slide_id_entries(n: nat) -> Seq<char>
    decreases n,
{
    if n == 0 {
        Seq::empty()
    } else {
        slide_id_entries((n - 1) as nat) + PRES_ENTRY_START@ + nat_digits(n + 255) + PRES_ENTRY_MID@
            + nat_digits(n + 1) + PRES_ENTRY_END@
    }
}

/// The slide relationships `1..=n` of `ppt/_rels/presentation.xml.rels` (slide `i` is
/// `rId{i + 1}`).
pub open spec fn slide_rel_entries(n: nat) -> Seq<char>
    decreases n,
{
    if n == 0 {
        Seq::empty()
    } else {
        slide_rel_entries((n - 1) as nat) + PRES_RELS_ENTRY_START@ + nat_digits(n + 1)
            + PRES_RELS_ENTRY_MID@ + nat_digits(n) + PRES_RELS_ENTRY_END@
    }
}

/// `[Content_Types].xml` for `n` slides.
pub fn content_types_xml(n: u64) -> (r: String)
    ensures
        r@ == CT_HEAD@ + content_type_entries(n as nat) + CT_TAIL@,
{
    let mut r = String::new();
    push_str(&mut r, CT_HEAD);
    let mut i: u64 = 0;
    while i < n
        invariant
            i <= n,
            r@ == CT_HEAD@ + content_type_entries(i as nat),
        decreases n - i,
    {
        i = i + 1;
        push_str(&mut r, CT_ENTRY_START);
        push_nat(&mut r, i);
        push_str(&mut r, CT_ENTRY_END);
        assert(r@ =~= CT_HEAD@ + content_type_entries(i as nat));
    }
    push_str(&mut r, CT_TAIL);
    r
}

/// `ppt/presentation.xml` for `n` slides.
pub fn presentation_xml(n: u64) -> (r: String)
    requires
        n <= u64::MAX - 255,
    ensures
        r@ == PRES_HEAD@ + slide_id_entries(n as nat) + PRES_TAIL@,
{
    let mut r = String::new();
    push_str(&mut r, PRES_HEAD);
    let mut i: u64 = 0;
    while i < n
        invariant
            i <= n,
            n <= u64::MAX - 255,
            r@ == PRES_HEAD@ + slide_id_entries(i as nat),
        decreases n - i,
    {
        i = i + 1;
        push_str(&mut r, PRES_ENTRY_START);
        push_nat(&mut r, i + 255);
        push_str(&mut r, PRES_ENTRY_MID);
        push_nat(&mut r, i + 1);
        push_str(&mut r, PRES_ENTRY_END);
        assert(r@ =~= PRES_HEAD@ + slide_id_entries(i as nat));
    }
    push_str(&mut r, PRES_TAIL);
    r
}

/// `ppt/_rels/presentation.xml.rels` for `n` slides.
pub fn presentation_rels_xml(n: u64) -> (r: String)
    requires
        n < u64::MAX,
    ensures
        r@ == PRES_RELS_HEAD@ + slide_rel_entries(n as nat) + RELS_TAIL@,
{
    let mut r = String::new();
    push_str(&mut r, PRES_RELS_HEAD);
    let mut i: u64 = 0;
    while i < n
        invariant
            i <= n,
            n < u64::MAX,
            r@ == PRES_RELS_HEAD@ + slide_rel_entries(i as nat),
        decreases n - i,
    {
        i = i + 1;
        push_str(&mut r, PRES_RELS_ENTRY_START);
        push_nat(&mut r, i + 1);
        push_str(&mut r, PRES_RELS_ENTRY_MID);
        push_nat(&mut r, i);
        push_str(&mut r, PRES_RELS_ENTRY_END);
        assert(r@ =~= PRES_RELS_HEAD@ + slide_rel_entries(i as nat));
    }
    push_str(&mut r, RELS_TAIL);
    r
}

/// A slide part: its name (XML-escaped), its background and its shapes (both already
/// XML).
pub fn slide_xml(name: &str, background_xml: &str, shapes_xml: &str) -> (r: String)
    ensures
        r@ == SLIDE_HEAD@ + xml_escaped(name@) + SLIDE_AFTER_NAME@ + background_xml@
            + SLIDE_AFTER_BACKGROUND@ + shapes_xml@ + SLIDE_TAIL@,
{
    let mut r = String::new();
    push_str(&mut r, SLIDE_HEAD);
    let escaped = html_escape(name);
    push_str(&mut r, escaped.as_str());
    push_str(&mut r, SLIDE_AFTER_NAME);
    push_str(&mut r, background_xml);
    push_str(&mut r, SLIDE_AFTER_BACKGROUND);
    push_str(&mut r, shapes_xml);
    push_str(&mut r, SLIDE_TAIL);
    r
}

/// The relationship entries of a slide, one per (id, type, target).
pub open spec fn slide_rel_lines(ids: Seq<Seq<char>>, types: Seq<Seq<char>>, targets: Seq<Seq<char>>) -> Seq<char>
    decreases ids.len(),
{
    if ids.len() == 0 {
        Seq::empty()
    } else {
        let k = ids.len() - 1;
        slide_rel_lines(ids.drop_last(), types.take(k), targets.take(k)) + SLIDE_REL_ID@ + ids[k]
            + SLIDE_REL_TYPE@ + types[k] + SLIDE_REL_TARGET@ + targets[k] + SLIDE_REL_END@
    }
}

/// A slide's relationships part, one relationship per (id, type, target).
pub fn slide_rels_xml(ids: &Vec<String>, types: &Vec<String>, targets: &Vec<String>) -> (r: String)
    requires
        ids.len() == types.len(),
        ids.len() == targets.len(),
    ensures
        r@ == SLIDE_RELS_HEAD@ + slide_rel_lines(
            string_views(ids@),
            string_views(types@),
            string_views(targets@),
        ) + RELS_TAIL@,
{
    let ghost iv = string_views(ids@);
    let ghost tv = string_views(types@);
    let ghost gv = string_views(targets@);
    let mut r = String::new();
    push_str(&mut r, SLIDE_RELS_HEAD);
    let mut i: usize = 0;
    assert(iv.take(0) =~= Seq::<Seq<char>>::empty());
    while i < ids.len()
        invariant
            i <= ids.len(),
            ids.len() == types.len(),
            ids.len() == targets.len(),
            iv == string_views(ids@),
            tv == string_views(types@),
            gv == string_views(targets@),
            r@ == SLIDE_RELS_HEAD@ + slide_rel_lines(iv.take(i as int), tv.take(i as int), gv.take(i as int)),
        decreases ids.len() - i,
    {
        push_str(&mut r, SLIDE_REL_ID);
        push_str(&mut r, ids[i].as_str());
        push_str(&mut r, SLIDE_REL_TYPE);
        push_str(&mut r, types[i].as_str());
        push_str(&mut r, SLIDE_REL_TARGET);
        push_str(&mut r, targets[i].as_str());
        push_str(&mut r, SLIDE_REL_END);
        proof {
            let j = i as int;
            assert(iv.take(j + 1).drop_last() =~= iv.take(j));
            assert(tv.take(j + 1).take(j) =~= tv.take(j));
            assert(gv.take(j + 1).take(j) =~= gv.take(j));
            assert(iv.take(j + 1)[j] == ids@[j]@);
            assert(tv.take(j + 1)[j] == types@[j]@);
            assert(gv.take(j + 1)[j] == targets@[j]@);
        }
        assert(r@ =~= SLIDE_RELS_HEAD@ + slide_rel_lines(iv.take(i as int + 1), tv.take(i as int + 1), gv.take(i as int + 1)));
        i = i + 1;
    }
    assert(iv.take(ids.len() as int) =~= iv);
    assert(tv.take(ids.len() as int) =~= tv);
    assert(gv.take(ids.len() as int) =~= gv);
    push_str(&mut r, RELS_TAIL);
    r
}

} // verus!
