//! Content-stream operations (ISO 32000-1 §8, §9, Annex A).

use vstd::prelude::*;
use crate::types::object::{ObjectView, PdfObject, clone_object, copy_bytes};
use crate::parser::error::{ascii_chars, lossy_utf8, utf8_lossy};
use crate::text::concat_str;

verus! {

/// A content-stream operator (ISO 32000-1 Annex A, Table A.1).
#[derive(Debug, Clone, PartialEq)]
pub enum ContentStreamOperator {
    /// Begins a text object (`BT`).
    BeginText,
    /// Ends a text object (`ET`).
    EndText,
    /// Sets the character spacing (`Tc`).
    SetCharSpacing,
    /// Sets the word spacing (`Tw`).
    SetWordSpacing,
    /// Sets the horizontal scaling (`Tz`).
    SetHorizontalScale,
    /// Sets the leading (`TL`).
    SetLeading,
    /// Sets the font and size (`Tf`).
    SetFont,
    /// Sets the text rendering mode (`Tr`).
    SetRenderingMode,
    /// Sets the text rise (`Ts`).
    SetTextRise,
    /// Moves to the start of the next line (`Td`).
    MoveText,
    /// Moves to the next line and sets the leading (`TD`).
    MoveTextSetLeading,
    /// Sets the text matrix (`Tm`).
    SetTextMatrix,
    /// Moves to the start of the next line (`T*`).
    MoveToNextLine,
    /// Shows a string (`Tj`).
    ShowText,
    /// Shows strings with individual positioning (`TJ`).
    ShowTextAdjusted,
    /// Moves to the next line and shows a string (`'`).
    MoveShowText,
    /// Sets spacing, moves to the next line and shows a string (`"`).
    MoveSetShowText,
    /// Saves the graphics state (`q`).
    SaveState,
    /// Restores the graphics state (`Q`).
    RestoreState,
    /// Concatenates a matrix to the CTM (`cm`).
    ConcatMatrix,
    /// Sets the line width (`w`).
    SetLineWidth,
    /// Sets the line cap style (`J`).
    SetLineCap,
    /// Sets the line join style (`j`).
    SetLineJoin,
    /// Sets the miter limit (`M`).
    SetMiterLimit,
    /// Sets the dash pattern (`d`).
    SetDashPattern,
    /// Sets the flatness tolerance (`i`).
    SetFlatness,
    /// Applies a graphics state dictionary (`gs`).
    SetGraphicsState,
    /// Sets the rendering intent (`ri`).
    SetRenderingIntent,
    /// Begins a subpath (`m`).
    MoveTo,
    /// Appends a line segment (`l`).
    LineTo,
    /// Appends a cubic Bézier curve (`c`).
    CurveTo,
    /// Appends a Bézier curve, first control point on the current point (`v`).
    CurveToV,
    /// Appends a Bézier curve, second control point on the end point (`y`).
    CurveToY,
    /// Closes the subpath (`h`).
    ClosePath,
    /// Appends a rectangle (`re`).
    Rect,
    /// Strokes the path (`S`).
    Stroke,
    /// Closes and strokes the path (`s`).
    CloseStroke,
    /// Fills the path, nonzero winding (`f`).
    Fill,
    /// Fills the path, nonzero winding; obsolete form (`F`).
    FillObsolete,
    /// Fills the path, even-odd (`f*`).
    FillEvenOdd,
    /// Fills and strokes the path (`B`).
    FillStroke,
    /// Fills (even-odd) and strokes the path (`B*`).
    FillStrokeEvenOdd,
    /// Closes, fills and strokes the path (`b`).
    CloseFillStroke,
    /// Closes, fills (even-odd) and strokes the path (`b*`).
    CloseFillStrokeEvenOdd,
    /// Ends the path without painting (`n`).
    EndPath,
    /// Clips, nonzero winding (`W`).
    Clip,
    /// Clips, even-odd (`W*`).
    ClipEvenOdd,
    /// Sets the stroking colour space (`CS`).
    SetStrokeColorSpace,
    /// Sets the non-stroking colour space (`cs`).
    SetFillColorSpace,
    /// Sets the stroking colour (`SC`).
    SetStrokeColor,
    /// Sets the stroking colour, with patterns (`SCN`).
    SetStrokeColorN,
    /// Sets the non-stroking colour (`sc`).
    SetFillColor,
    /// Sets the non-stroking colour, with patterns (`scn`).
    SetFillColorN,
    /// Sets a stroking grey level (`G`).
    SetStrokeGray,
    /// Sets a non-stroking grey level (`g`).
    SetFillGray,
    /// Sets a stroking RGB colour (`RG`).
    SetStrokeRGB,
    /// Sets a non-stroking RGB colour (`rg`).
    SetFillRGB,
    /// Sets a stroking CMYK colour (`K`).
    SetStrokeCMYK,
    /// Sets a non-stroking CMYK colour (`k`).
    SetFillCMYK,
    /// Paints an XObject (`Do`).
    InvokeXObject,
    /// Paints a shading (`sh`).
    Shading,
    /// An inline image `BI ... ID ... EI`.
    InlineImage,
    /// A marked-content point (`MP`).
    MarkedContentPoint,
    /// A marked-content point with properties (`DP`).
    MarkedContentPointProp,
    /// Begins a marked-content sequence (`BMC`).
    BeginMarkedContent,
    /// Begins a marked-content sequence with properties (`BDC`).
    BeginMarkedContentProp,
    /// Ends a marked-content sequence (`EMC`).
    EndMarkedContent,
    /// Begins a compatibility section (`BX`).
    BeginCompatibility,
    /// Ends a compatibility section (`EX`).
    EndCompatibility,
    /// A keyword this library does not know, kept as its bytes.
    Unknown(Vec<u8>),
}

/// The value of an operator: a known operator, or the bytes of an unknown one.
pub enum OperatorView {
    Known(ContentStreamOperator),
    Unknown(Seq<u8>),
}

impl View for ContentStreamOperator {
    type V = OperatorView;

    open spec fn view(&self) -> OperatorView {
        match *self {
            ContentStreamOperator::Unknown(b) => OperatorView::Unknown(b@),
            _ => OperatorView::Known(*self),
        }
    }
}

/// The bytes of the keyword of an operator (`?` for an unknown one).
pub open spec fn spec_keyword_bytes(op: ContentStreamOperator) -> Seq<u8> {
    match op {
        ContentStreamOperator::BeginText => seq![0x42u8, 0x54],
        ContentStreamOperator::EndText => seq![0x45u8, 0x54],
        ContentStreamOperator::SetCharSpacing => seq![0x54u8, 0x63],
        ContentStreamOperator::SetWordSpacing => seq![0x54u8, 0x77],
        ContentStreamOperator::SetHorizontalScale => seq![0x54u8, 0x7A],
        ContentStreamOperator::SetLeading => seq![0x54u8, 0x4C],
        ContentStreamOperator::SetFont => seq![0x54u8, 0x66],
        ContentStreamOperator::SetRenderingMode => seq![0x54u8, 0x72],
        ContentStreamOperator::SetTextRise => seq![0x54u8, 0x73],
        ContentStreamOperator::MoveText => seq![0x54u8, 0x64],
        ContentStreamOperator::MoveTextSetLeading => seq![0x54u8, 0x44],
        ContentStreamOperator::SetTextMatrix => seq![0x54u8, 0x6D],
        ContentStreamOperator::MoveToNextLine => seq![0x54u8, 0x2A],
        ContentStreamOperator::ShowText => seq![0x54u8, 0x6A],
        ContentStreamOperator::ShowTextAdjusted => seq![0x54u8, 0x4A],
        ContentStreamOperator::MoveShowText => seq![0x27u8],
        ContentStreamOperator::MoveSetShowText => seq![0x22u8],
        ContentStreamOperator::SaveState => seq![0x71u8],
        ContentStreamOperator::RestoreState => seq![0x51u8],
        ContentStreamOperator::ConcatMatrix => seq![0x63u8, 0x6D],
        ContentStreamOperator::SetLineWidth => seq![0x77u8],
        ContentStreamOperator::SetLineCap => seq![0x4Au8],
        ContentStreamOperator::SetLineJoin => seq![0x6Au8],
        ContentStreamOperator::SetMiterLimit => seq![0x4Du8],
        ContentStreamOperator::SetDashPattern => seq![0x64u8],
        ContentStreamOperator::SetFlatness => seq![0x69u8],
        ContentStreamOperator::SetGraphicsState => seq![0x67u8, 0x73],
        ContentStreamOperator::SetRenderingIntent => seq![0x72u8, 0x69],
        ContentStreamOperator::MoveTo => seq![0x6Du8],
        ContentStreamOperator::LineTo => seq![0x6Cu8],
        ContentStreamOperator::CurveTo => seq![0x63u8],
        ContentStreamOperator::CurveToV => seq![0x76u8],
        ContentStreamOperator::CurveToY => seq![0x79u8],
        ContentStreamOperator::ClosePath => seq![0x68u8],
        ContentStreamOperator::Rect => seq![0x72u8, 0x65],
        ContentStreamOperator::Stroke => seq![0x53u8],
        ContentStreamOperator::CloseStroke => seq![0x73u8],
        ContentStreamOperator::Fill => seq![0x66u8],
        ContentStreamOperator::FillObsolete => seq![0x46u8],
        ContentStreamOperator::FillEvenOdd => seq![0x66u8, 0x2A],
        ContentStreamOperator::FillStroke => seq![0x42u8],
        ContentStreamOperator::FillStrokeEvenOdd => seq![0x42u8, 0x2A],
        ContentStreamOperator::CloseFillStroke => seq![0x62u8],
        ContentStreamOperator::CloseFillStrokeEvenOdd => seq![0x62u8, 0x2A],
        ContentStreamOperator::EndPath => seq![0x6Eu8],
        ContentStreamOperator::Clip => seq![0x57u8],
        ContentStreamOperator::ClipEvenOdd => seq![0x57u8, 0x2A],
        ContentStreamOperator::SetStrokeColorSpace => seq![0x43u8, 0x53],
        ContentStreamOperator::SetFillColorSpace => seq![0x63u8, 0x73],
        ContentStreamOperator::SetStrokeColor => seq![0x53u8, 0x43],
        ContentStreamOperator::SetStrokeColorN => seq![0x53u8, 0x43, 0x4E],
        ContentStreamOperator::SetFillColor => seq![0x73u8, 0x63],
        ContentStreamOperator::SetFillColorN => seq![0x73u8, 0x63, 0x6E],
        ContentStreamOperator::SetStrokeGray => seq![0x47u8],
        ContentStreamOperator::SetFillGray => seq![0x67u8],
        ContentStreamOperator::SetStrokeRGB => seq![0x52u8, 0x47],
        ContentStreamOperator::SetFillRGB => seq![0x72u8, 0x67],
        ContentStreamOperator::SetStrokeCMYK => seq![0x4Bu8],
        ContentStreamOperator::SetFillCMYK => seq![0x6Bu8],
        ContentStreamOperator::InvokeXObject => seq![0x44u8, 0x6F],
        ContentStreamOperator::Shading => seq![0x73u8, 0x68],
        ContentStreamOperator::InlineImage => seq![0x42u8, 0x49, 0x2F, 0x49, 0x44, 0x2F, 0x45, 0x49],
        ContentStreamOperator::MarkedContentPoint => seq![0x4Du8, 0x50],
        ContentStreamOperator::MarkedContentPointProp => seq![0x44u8, 0x50],
        ContentStreamOperator::BeginMarkedContent => seq![0x42u8, 0x4D, 0x43],
        ContentStreamOperator::BeginMarkedContentProp => seq![0x42u8, 0x44, 0x43],
        ContentStreamOperator::EndMarkedContent => seq![0x45u8, 0x4D, 0x43],
        ContentStreamOperator::BeginCompatibility => seq![0x42u8, 0x58],
        ContentStreamOperator::EndCompatibility => seq![0x45u8, 0x58],
        ContentStreamOperator::Unknown(_) => seq![0x3Fu8],
    }
}

/// The known operator whose keyword is `k`. `ID` and `EI` have none: they
/// only occur inside an inline image.
pub open spec fn spec_known_operator(k: Seq<u8>) -> Option<ContentStreamOperator> {
    if k.len() == 1 {
        if k[0] == 0x27 {
            Some(ContentStreamOperator::MoveShowText)
        } else if k[0] == 0x22 {
            Some(ContentStreamOperator::MoveSetShowText)
        } else if k[0] == 0x71 {
            Some(ContentStreamOperator::SaveState)
        } else if k[0] == 0x51 {
            Some(ContentStreamOperator::RestoreState)
        } else if k[0] == 0x77 {
            Some(ContentStreamOperator::SetLineWidth)
        } else if k[0] == 0x4A {
            Some(ContentStreamOperator::SetLineCap)
        } else if k[0] == 0x6A {
            Some(ContentStreamOperator::SetLineJoin)
        } else if k[0] == 0x4D {
            Some(ContentStreamOperator::SetMiterLimit)
        } else if k[0] == 0x64 {
            Some(ContentStreamOperator::SetDashPattern)
        } else if k[0] == 0x69 {
            Some(ContentStreamOperator::SetFlatness)
        } else if k[0] == 0x6D {
            Some(ContentStreamOperator::MoveTo)
        } else if k[0] == 0x6C {
            Some(ContentStreamOperator::LineTo)
        } else if k[0] == 0x63 {
            Some(ContentStreamOperator::CurveTo)
        } else if k[0] == 0x76 {
            Some(ContentStreamOperator::CurveToV)
        } else if k[0] == 0x79 {
            Some(ContentStreamOperator::CurveToY)
        } else if k[0] == 0x68 {
            Some(ContentStreamOperator::ClosePath)
        } else if k[0] == 0x53 {
            Some(ContentStreamOperator::Stroke)
        } else if k[0] == 0x73 {
            Some(ContentStreamOperator::CloseStroke)
        } else if k[0] == 0x66 {
            Some(ContentStreamOperator::Fill)
        } else if k[0] == 0x46 {
            Some(ContentStreamOperator::FillObsolete)
        } else if k[0] == 0x42 {
            Some(ContentStreamOperator::FillStroke)
        } else if k[0] == 0x62 {
            Some(ContentStreamOperator::CloseFillStroke)
        } else if k[0] == 0x6E {
            Some(ContentStreamOperator::EndPath)
        } else if k[0] == 0x57 {
            Some(ContentStreamOperator::Clip)
        } else if k[0] == 0x47 {
            Some(ContentStreamOperator::SetStrokeGray)
        } else if k[0] == 0x67 {
            Some(ContentStreamOperator::SetFillGray)
        } else if k[0] == 0x4B {
            Some(ContentStreamOperator::SetStrokeCMYK)
        } else if k[0] == 0x6B {
            Some(ContentStreamOperator::SetFillCMYK)
        } else {
            None
        }
    } else if k.len() == 2 {
        if k[0] == 0x42 && k[1] == 0x54 {
            Some(ContentStreamOperator::BeginText)
        } else if k[0] == 0x45 && k[1] == 0x54 {
            Some(ContentStreamOperator::EndText)
        } else if k[0] == 0x54 && k[1] == 0x63 {
            Some(ContentStreamOperator::SetCharSpacing)
        } else if k[0] == 0x54 && k[1] == 0x77 {
            Some(ContentStreamOperator::SetWordSpacing)
        } else if k[0] == 0x54 && k[1] == 0x7A {
            Some(ContentStreamOperator::SetHorizontalScale)
        } else if k[0] == 0x54 && k[1] == 0x4C {
            Some(ContentStreamOperator::SetLeading)
        } else if k[0] == 0x54 && k[1] == 0x66 {
            Some(ContentStreamOperator::SetFont)
        } else if k[0] == 0x54 && k[1] == 0x72 {
            Some(ContentStreamOperator::SetRenderingMode)
        } else if k[0] == 0x54 && k[1] == 0x73 {
            Some(ContentStreamOperator::SetTextRise)
        } else if k[0] == 0x54 && k[1] == 0x64 {
            Some(ContentStreamOperator::MoveText)
        } else if k[0] == 0x54 && k[1] == 0x44 {
            Some(ContentStreamOperator::MoveTextSetLeading)
        } else if k[0] == 0x54 && k[1] == 0x6D {
            Some(ContentStreamOperator::SetTextMatrix)
        } else if k[0] == 0x54 && k[1] == 0x2A {
            Some(ContentStreamOperator::MoveToNextLine)
        } else if k[0] == 0x54 && k[1] == 0x6A {
            Some(ContentStreamOperator::ShowText)
        } else if k[0] == 0x54 && k[1] == 0x4A {
            Some(ContentStreamOperator::ShowTextAdjusted)
        } else if k[0] == 0x63 && k[1] == 0x6D {
            Some(ContentStreamOperator::ConcatMatrix)
        } else if k[0] == 0x67 && k[1] == 0x73 {
            Some(ContentStreamOperator::SetGraphicsState)
        } else if k[0] == 0x72 && k[1] == 0x69 {
            Some(ContentStreamOperator::SetRenderingIntent)
        } else if k[0] == 0x72 && k[1] == 0x65 {
            Some(ContentStreamOperator::Rect)
        } else if k[0] == 0x66 && k[1] == 0x2A {
            Some(ContentStreamOperator::FillEvenOdd)
        } else if k[0] == 0x42 && k[1] == 0x2A {
            Some(ContentStreamOperator::FillStrokeEvenOdd)
        } else if k[0] == 0x62 && k[1] == 0x2A {
            Some(ContentStreamOperator::CloseFillStrokeEvenOdd)
        } else if k[0] == 0x57 && k[1] == 0x2A {
            Some(ContentStreamOperator::ClipEvenOdd)
        } else if k[0] == 0x43 && k[1] == 0x53 {
            Some(ContentStreamOperator::SetStrokeColorSpace)
        } else if k[0] == 0x63 && k[1] == 0x73 {
            Some(ContentStreamOperator::SetFillColorSpace)
        } else if k[0] == 0x53 && k[1] == 0x43 {
            Some(ContentStreamOperator::SetStrokeColor)
        } else if k[0] == 0x73 && k[1] == 0x63 {
            Some(ContentStreamOperator::SetFillColor)
        } else if k[0] == 0x52 && k[1] == 0x47 {
            Some(ContentStreamOperator::SetStrokeRGB)
        } else if k[0] == 0x72 && k[1] == 0x67 {
            Some(ContentStreamOperator::SetFillRGB)
        } else if k[0] == 0x44 && k[1] == 0x6F {
            Some(ContentStreamOperator::InvokeXObject)
        } else if k[0] == 0x73 && k[1] == 0x68 {
            Some(ContentStreamOperator::Shading)
        } else if k[0] == 0x4D && k[1] == 0x50 {
            Some(ContentStreamOperator::MarkedContentPoint)
        } else if k[0] == 0x44 && k[1] == 0x50 {
            Some(ContentStreamOperator::MarkedContentPointProp)
        } else if k[0] == 0x42 && k[1] == 0x58 {
            Some(ContentStreamOperator::BeginCompatibility)
        } else if k[0] == 0x45 && k[1] == 0x58 {
            Some(ContentStreamOperator::EndCompatibility)
        } else {
            None
        }
    } else if k.len() == 3 {
        if k[0] == 0x53 && k[1] == 0x43 && k[2] == 0x4E {
            Some(ContentStreamOperator::SetStrokeColorN)
        } else if k[0] == 0x73 && k[1] == 0x63 && k[2] == 0x6E {
            Some(ContentStreamOperator::SetFillColorN)
        } else if k[0] == 0x42 && k[1] == 0x4D && k[2] == 0x43 {
            Some(ContentStreamOperator::BeginMarkedContent)
        } else if k[0] == 0x42 && k[1] == 0x44 && k[2] == 0x43 {
            Some(ContentStreamOperator::BeginMarkedContentProp)
        } else if k[0] == 0x45 && k[1] == 0x4D && k[2] == 0x43 {
            Some(ContentStreamOperator::EndMarkedContent)
        } else {
            None
        }
    } else {
        None
    }
}

/// The operator a keyword denotes; keywords this library does not know
/// (`ID` and `EI` among them) are kept as `Unknown`.
pub open spec fn spec_operator_of(k: Seq<u8>) -> OperatorView {
    match spec_known_operator(k) {
        Some(op) => OperatorView::Known(op),
        None => OperatorView::Unknown(k),
    }
}

impl ContentStreamOperator {
    /// The keyword of this operator as it appears in a content stream
    /// (`BI/ID/EI` for an inline image, `?` for an unknown keyword).
    pub fn pdf_keyword(&self) -> (r: &'static str)
        ensures
            r@ == ascii_chars(spec_keyword_bytes(*self)),
    {
        match self {
            ContentStreamOperator::BeginText => {
                proof {
                    reveal_strlit("BT");
                    assert("BT"@ =~= ascii_chars(spec_keyword_bytes(*self)));
                }
                "BT"
            },
            ContentStreamOperator::EndText => {
                proof {
                    reveal_strlit("ET");
                    assert("ET"@ =~= ascii_chars(spec_keyword_bytes(*self)));
                }
                "ET"
            },
            ContentStreamOperator::SetCharSpacing => {
                proof {
                    reveal_strlit("Tc");
                    assert("Tc"@ =~= ascii_chars(spec_keyword_bytes(*self)));
                }
                "Tc"
            },
            ContentStreamOperator::SetWordSpacing => {
                proof {
                    reveal_strlit("Tw");
                    assert("Tw"@ =~= ascii_chars(spec_keyword_bytes(*self)));
                }
                "Tw"
            },
            ContentStreamOperator::SetHorizontalScale => {
                proof {
                    reveal_strlit("Tz");
                    assert("Tz"@ =~= ascii_chars(spec_keyword_bytes(*self)));
                }
                "Tz"
            },
            ContentStreamOperator::SetLeading => {
                proof {
                    reveal_strlit("TL");
                    assert("TL"@ =~= ascii_chars(spec_keyword_bytes(*self)));
                }
                "TL"
            },
            ContentStreamOperator::SetFont => {
                proof {
                    reveal_strlit("Tf");
                    assert("Tf"@ =~= ascii_chars(spec_keyword_bytes(*self)));
                }
                "Tf"
            },
            ContentStreamOperator::SetRenderingMode => {
                proof {
                    reveal_strlit("Tr");
                    assert("Tr"@ =~= ascii_chars(spec_keyword_bytes(*self)));
                }
                "Tr"
            },
            ContentStreamOperator::SetTextRise => {
                proof {
                    reveal_strlit("Ts");
                    assert("Ts"@ =~= ascii_chars(spec_keyword_bytes(*self)));
                }
                "Ts"
            },
            ContentStreamOperator::MoveText => {
                proof {
                    reveal_strlit("Td");
                    assert("Td"@ =~= ascii_chars(spec_keyword_bytes(*self)));
                }
                "Td"
            },
            ContentStreamOperator::MoveTextSetLeading => {
                proof {
                    reveal_strlit("TD");
                    assert("TD"@ =~= ascii_chars(spec_keyword_bytes(*self)));
                }
                "TD"
            },
            ContentStreamOperator::SetTextMatrix => {
                proof {
                    reveal_strlit("Tm");
                    assert("Tm"@ =~= ascii_chars(spec_keyword_bytes(*self)));
                }
                "Tm"
            },
            ContentStreamOperator::MoveToNextLine => {
                proof {
                    reveal_strlit("T*");
                    assert("T*"@ =~= ascii_chars(spec_keyword_bytes(*self)));
                }
                "T*"
            },
            ContentStreamOperator::ShowText => {
                proof {
                    reveal_strlit("Tj");
                    assert("Tj"@ =~= ascii_chars(spec_keyword_bytes(*self)));
                }
                "Tj"
            },
            ContentStreamOperator::ShowTextAdjusted => {
                proof {
                    reveal_strlit("TJ");
                    assert("TJ"@ =~= ascii_chars(spec_keyword_bytes(*self)));
                }
                "TJ"
            },
            ContentStreamOperator::MoveShowText => {
                proof {
                    reveal_strlit("'");
                    assert("'"@ =~= ascii_chars(spec_keyword_bytes(*self)));
                }
                "'"
            },
            ContentStreamOperator::MoveSetShowText => {
                proof {
                    reveal_strlit("\"");
                    assert("\""@ =~= ascii_chars(spec_keyword_bytes(*self)));
                }
                "\""
            },
            ContentStreamOperator::SaveState => {
                proof {
                    reveal_strlit("q");
                    assert("q"@ =~= ascii_chars(spec_keyword_bytes(*self)));
                }
                "q"
            },
            ContentStreamOperator::RestoreState => {
                proof {
                    reveal_strlit("Q");
                    assert("Q"@ =~= ascii_chars(spec_keyword_bytes(*self)));
                }
                "Q"
            },
            ContentStreamOperator::ConcatMatrix => {
                proof {
                    reveal_strlit("cm");
                    assert("cm"@ =~= ascii_chars(spec_keyword_bytes(*self)));
                }
                "cm"
            },
            ContentStreamOperator::SetLineWidth => {
                proof {
                    reveal_strlit("w");
                    assert("w"@ =~= ascii_chars(spec_keyword_bytes(*self)));
                }
                "w"
            },
            ContentStreamOperator::SetLineCap => {
                proof {
                    reveal_strlit("J");
                    assert("J"@ =~= ascii_chars(spec_keyword_bytes(*self)));
                }
                "J"
            },
            ContentStreamOperator::SetLineJoin => {
                proof {
                    reveal_strlit("j");
                    assert("j"@ =~= ascii_chars(spec_keyword_bytes(*self)));
                }
                "j"
            },
            ContentStreamOperator::SetMiterLimit => {
                proof {
                    reveal_strlit("M");
                    assert("M"@ =~= ascii_chars(spec_keyword_bytes(*self)));
                }
                "M"
            },
            ContentStreamOperator::SetDashPattern => {
                proof {
                    reveal_strlit("d");
                    assert("d"@ =~= ascii_chars(spec_keyword_bytes(*self)));
                }
                "d"
            },
            ContentStreamOperator::SetFlatness => {
                proof {
                    reveal_strlit("i");
                    assert("i"@ =~= ascii_chars(spec_keyword_bytes(*self)));
                }
                "i"
            },
            ContentStreamOperator::SetGraphicsState => {
                proof {
                    reveal_strlit("gs");
                    assert("gs"@ =~= ascii_chars(spec_keyword_bytes(*self)));
                }
                "gs"
            },
            ContentStreamOperator::SetRenderingIntent => {
                proof {
                    reveal_strlit("ri");
                    assert("ri"@ =~= ascii_chars(spec_keyword_bytes(*self)));
                }
                "ri"
            },
            ContentStreamOperator::MoveTo => {
                proof {
                    reveal_strlit("m");
                    assert("m"@ =~= ascii_chars(spec_keyword_bytes(*self)));
                }
                "m"
            },
            ContentStreamOperator::LineTo => {
                proof {
                    reveal_strlit("l");
                    assert("l"@ =~= ascii_chars(spec_keyword_bytes(*self)));
                }
                "l"
            },
            ContentStreamOperator::CurveTo => {
                proof {
                    reveal_strlit("c");
                    assert("c"@ =~= ascii_chars(spec_keyword_bytes(*self)));
                }
                "c"
            },
            ContentStreamOperator::CurveToV => {
                proof {
                    reveal_strlit("v");
                    assert("v"@ =~= ascii_chars(spec_keyword_bytes(*self)));
                }
                "v"
            },
            ContentStreamOperator::CurveToY => {
                proof {
                    reveal_strlit("y");
                    assert("y"@ =~= ascii_chars(spec_keyword_bytes(*self)));
                }
                "y"
            },
            ContentStreamOperator::ClosePath => {
                proof {
                    reveal_strlit("h");
                    assert("h"@ =~= ascii_chars(spec_keyword_bytes(*self)));
                }
                "h"
            },
            ContentStreamOperator::Rect => {
                proof {
                    reveal_strlit("re");
                    assert("re"@ =~= ascii_chars(spec_keyword_bytes(*self)));
                }
                "re"
            },
            ContentStreamOperator::Stroke => {
                proof {
                    reveal_strlit("S");
                    assert("S"@ =~= ascii_chars(spec_keyword_bytes(*self)));
                }
                "S"
            },
            ContentStreamOperator::CloseStroke => {
                proof {
                    reveal_strlit("s");
                    assert("s"@ =~= ascii_chars(spec_keyword_bytes(*self)));
                }
                "s"
            },
            ContentStreamOperator::Fill => {
                proof {
                    reveal_strlit("f");
                    assert("f"@ =~= ascii_chars(spec_keyword_bytes(*self)));
                }
                "f"
            },
            ContentStreamOperator::FillObsolete => {
                proof {
                    reveal_strlit("F");
                    assert("F"@ =~= ascii_chars(spec_keyword_bytes(*self)));
                }
                "F"
            },
            ContentStreamOperator::FillEvenOdd => {
                proof {
                    reveal_strlit("f*");
                    assert("f*"@ =~= ascii_chars(spec_keyword_bytes(*self)));
                }
                "f*"
            },
            ContentStreamOperator::FillStroke => {
                proof {
                    reveal_strlit("B");
                    assert("B"@ =~= ascii_chars(spec_keyword_bytes(*self)));
                }
                "B"
            },
            ContentStreamOperator::FillStrokeEvenOdd => {
                proof {
                    reveal_strlit("B*");
                    assert("B*"@ =~= ascii_chars(spec_keyword_bytes(*self)));
                }
                "B*"
            },
            ContentStreamOperator::CloseFillStroke => {
                proof {
                    reveal_strlit("b");
                    assert("b"@ =~= ascii_chars(spec_keyword_bytes(*self)));
                }
                "b"
            },
            ContentStreamOperator::CloseFillStrokeEvenOdd => {
                proof {
                    reveal_strlit("b*");
                    assert("b*"@ =~= ascii_chars(spec_keyword_bytes(*self)));
                }
                "b*"
            },
            ContentStreamOperator::EndPath => {
                proof {
                    reveal_strlit("n");
                    assert("n"@ =~= ascii_chars(spec_keyword_bytes(*self)));
                }
                "n"
            },
            ContentStreamOperator::Clip => {
                proof {
                    reveal_strlit("W");
                    assert("W"@ =~= ascii_chars(spec_keyword_bytes(*self)));
                }
                "W"
            },
            ContentStreamOperator::ClipEvenOdd => {
                proof {
                    reveal_strlit("W*");
                    assert("W*"@ =~= ascii_chars(spec_keyword_bytes(*self)));
                }
                "W*"
            },
            ContentStreamOperator::SetStrokeColorSpace => {
                proof {
                    reveal_strlit("CS");
                    assert("CS"@ =~= ascii_chars(spec_keyword_bytes(*self)));
                }
                "CS"
            },
            ContentStreamOperator::SetFillColorSpace => {
                proof {
                    reveal_strlit("cs");
                    assert("cs"@ =~= ascii_chars(spec_keyword_bytes(*self)));
                }
                "cs"
            },
            ContentStreamOperator::SetStrokeColor => {
                proof {
                    reveal_strlit("SC");
                    assert("SC"@ =~= ascii_chars(spec_keyword_bytes(*self)));
                }
                "SC"
            },
            ContentStreamOperator::SetStrokeColorN => {
                proof {
                    reveal_strlit("SCN");
                    assert("SCN"@ =~= ascii_chars(spec_keyword_bytes(*self)));
                }
                "SCN"
            },
            ContentStreamOperator::SetFillColor => {
                proof {
                    reveal_strlit("sc");
                    assert("sc"@ =~= ascii_chars(spec_keyword_bytes(*self)));
                }
                "sc"
            },
            ContentStreamOperator::SetFillColorN => {
                proof {
                    reveal_strlit("scn");
                    assert("scn"@ =~= ascii_chars(spec_keyword_bytes(*self)));
                }
                "scn"
            },
            ContentStreamOperator::SetStrokeGray => {
                proof {
                    reveal_strlit("G");
                    assert("G"@ =~= ascii_chars(spec_keyword_bytes(*self)));
                }
                "G"
            },
            ContentStreamOperator::SetFillGray => {
                proof {
                    reveal_strlit("g");
                    assert("g"@ =~= ascii_chars(spec_keyword_bytes(*self)));
                }
                "g"
            },
            ContentStreamOperator::SetStrokeRGB => {
                proof {
                    reveal_strlit("RG");
                    assert("RG"@ =~= ascii_chars(spec_keyword_bytes(*self)));
                }
                "RG"
            },
            ContentStreamOperator::SetFillRGB => {
                proof {
                    reveal_strlit("rg");
                    assert("rg"@ =~= ascii_chars(spec_keyword_bytes(*self)));
                }
                "rg"
            },
            ContentStreamOperator::SetStrokeCMYK => {
                proof {
                    reveal_strlit("K");
                    assert("K"@ =~= ascii_chars(spec_keyword_bytes(*self)));
                }
                "K"
            },
            ContentStreamOperator::SetFillCMYK => {
                proof {
                    reveal_strlit("k");
                    assert("k"@ =~= ascii_chars(spec_keyword_bytes(*self)));
                }
                "k"
            },
            ContentStreamOperator::InvokeXObject => {
                proof {
                    reveal_strlit("Do");
                    assert("Do"@ =~= ascii_chars(spec_keyword_bytes(*self)));
                }
                "Do"
            },
            ContentStreamOperator::Shading => {
                proof {
                    reveal_strlit("sh");
                    assert("sh"@ =~= ascii_chars(spec_keyword_bytes(*self)));
                }
                "sh"
            },
            ContentStreamOperator::InlineImage => {
                proof {
                    reveal_strlit("BI/ID/EI");
                    assert("BI/ID/EI"@ =~= ascii_chars(spec_keyword_bytes(*self)));
                }
                "BI/ID/EI"
            },
            ContentStreamOperator::MarkedContentPoint => {
                proof {
                    reveal_strlit("MP");
                    assert("MP"@ =~= ascii_chars(spec_keyword_bytes(*self)));
                }
                "MP"
            },
            ContentStreamOperator::MarkedContentPointProp => {
                proof {
                    reveal_strlit("DP");
                    assert("DP"@ =~= ascii_chars(spec_keyword_bytes(*self)));
                }
                "DP"
            },
            ContentStreamOperator::BeginMarkedContent => {
                proof {
                    reveal_strlit("BMC");
                    assert("BMC"@ =~= ascii_chars(spec_keyword_bytes(*self)));
                }
                "BMC"
            },
            ContentStreamOperator::BeginMarkedContentProp => {
                proof {
                    reveal_strlit("BDC");
                    assert("BDC"@ =~= ascii_chars(spec_keyword_bytes(*self)));
                }
                "BDC"
            },
            ContentStreamOperator::EndMarkedContent => {
                proof {
                    reveal_strlit("EMC");
                    assert("EMC"@ =~= ascii_chars(spec_keyword_bytes(*self)));
                }
                "EMC"
            },
            ContentStreamOperator::BeginCompatibility => {
                proof {
                    reveal_strlit("BX");
                    assert("BX"@ =~= ascii_chars(spec_keyword_bytes(*self)));
                }
                "BX"
            },
            ContentStreamOperator::EndCompatibility => {
                proof {
                    reveal_strlit("EX");
                    assert("EX"@ =~= ascii_chars(spec_keyword_bytes(*self)));
                }
                "EX"
            },
            ContentStreamOperator::Unknown(_) => {
                proof {
                    reveal_strlit("?");
                    assert("?"@ =~= ascii_chars(spec_keyword_bytes(*self)));
                }
                "?"
            },
        }
    }
}

/// The operator a keyword denotes.
pub fn keyword_to_operator(k: &[u8]) -> (r: ContentStreamOperator)
    ensures
        r@ == spec_operator_of(k@),
{
    let n = k.len();
    if n == 1 {
        if k[0] == 0x27 {
            return ContentStreamOperator::MoveShowText;
        } else if k[0] == 0x22 {
            return ContentStreamOperator::MoveSetShowText;
        } else if k[0] == 0x71 {
            return ContentStreamOperator::SaveState;
        } else if k[0] == 0x51 {
            return ContentStreamOperator::RestoreState;
        } else if k[0] == 0x77 {
            return ContentStreamOperator::SetLineWidth;
        } else if k[0] == 0x4A {
            return ContentStreamOperator::SetLineCap;
        } else if k[0] == 0x6A {
            return ContentStreamOperator::SetLineJoin;
        } else if k[0] == 0x4D {
            return ContentStreamOperator::SetMiterLimit;
        } else if k[0] == 0x64 {
            return ContentStreamOperator::SetDashPattern;
        } else if k[0] == 0x69 {
            return ContentStreamOperator::SetFlatness;
        } else if k[0] == 0x6D {
            return ContentStreamOperator::MoveTo;
        } else if k[0] == 0x6C {
            return ContentStreamOperator::LineTo;
        } else if k[0] == 0x63 {
            return ContentStreamOperator::CurveTo;
        } else if k[0] == 0x76 {
            return ContentStreamOperator::CurveToV;
        } else if k[0] == 0x79 {
            return ContentStreamOperator::CurveToY;
        } else if k[0] == 0x68 {
            return ContentStreamOperator::ClosePath;
        } else if k[0] == 0x53 {
            return ContentStreamOperator::Stroke;
        } else if k[0] == 0x73 {
            return ContentStreamOperator::CloseStroke;
        } else if k[0] == 0x66 {
            return ContentStreamOperator::Fill;
        } else if k[0] == 0x46 {
            return ContentStreamOperator::FillObsolete;
        } else if k[0] == 0x42 {
            return ContentStreamOperator::FillStroke;
        } else if k[0] == 0x62 {
            return ContentStreamOperator::CloseFillStroke;
        } else if k[0] == 0x6E {
            return ContentStreamOperator::EndPath;
        } else if k[0] == 0x57 {
            return ContentStreamOperator::Clip;
        } else if k[0] == 0x47 {
            return ContentStreamOperator::SetStrokeGray;
        } else if k[0] == 0x67 {
            return ContentStreamOperator::SetFillGray;
        } else if k[0] == 0x4B {
            return ContentStreamOperator::SetStrokeCMYK;
        } else if k[0] == 0x6B {
            return ContentStreamOperator::SetFillCMYK;
        }
    } else if n == 2 {
        if k[0] == 0x42 && k[1] == 0x54 {
            return ContentStreamOperator::BeginText;
        } else if k[0] == 0x45 && k[1] == 0x54 {
            return ContentStreamOperator::EndText;
        } else if k[0] == 0x54 && k[1] == 0x63 {
            return ContentStreamOperator::SetCharSpacing;
        } else if k[0] == 0x54 && k[1] == 0x77 {
            return ContentStreamOperator::SetWordSpacing;
        } else if k[0] == 0x54 && k[1] == 0x7A {
            return ContentStreamOperator::SetHorizontalScale;
        } else if k[0] == 0x54 && k[1] == 0x4C {
            return ContentStreamOperator::SetLeading;
        } else if k[0] == 0x54 && k[1] == 0x66 {
            return ContentStreamOperator::SetFont;
        } else if k[0] == 0x54 && k[1] == 0x72 {
            return ContentStreamOperator::SetRenderingMode;
        } else if k[0] == 0x54 && k[1] == 0x73 {
            return ContentStreamOperator::SetTextRise;
        } else if k[0] == 0x54 && k[1] == 0x64 {
            return ContentStreamOperator::MoveText;
        } else if k[0] == 0x54 && k[1] == 0x44 {
            return ContentStreamOperator::MoveTextSetLeading;
        } else if k[0] == 0x54 && k[1] == 0x6D {
            return ContentStreamOperator::SetTextMatrix;
        } else if k[0] == 0x54 && k[1] == 0x2A {
            return ContentStreamOperator::MoveToNextLine;
        } else if k[0] == 0x54 && k[1] == 0x6A {
            return ContentStreamOperator::ShowText;
        } else if k[0] == 0x54 && k[1] == 0x4A {
            return ContentStreamOperator::ShowTextAdjusted;
        } else if k[0] == 0x63 && k[1] == 0x6D {
            return ContentStreamOperator::ConcatMatrix;
        } else if k[0] == 0x67 && k[1] == 0x73 {
            return ContentStreamOperator::SetGraphicsState;
        } else if k[0] == 0x72 && k[1] == 0x69 {
            return ContentStreamOperator::SetRenderingIntent;
        } else if k[0] == 0x72 && k[1] == 0x65 {
            return ContentStreamOperator::Rect;
        } else if k[0] == 0x66 && k[1] == 0x2A {
            return ContentStreamOperator::FillEvenOdd;
        } else if k[0] == 0x42 && k[1] == 0x2A {
            return ContentStreamOperator::FillStrokeEvenOdd;
        } else if k[0] == 0x62 && k[1] == 0x2A {
            return ContentStreamOperator::CloseFillStrokeEvenOdd;
        } else if k[0] == 0x57 && k[1] == 0x2A {
            return ContentStreamOperator::ClipEvenOdd;
        } else if k[0] == 0x43 && k[1] == 0x53 {
            return ContentStreamOperator::SetStrokeColorSpace;
        } else if k[0] == 0x63 && k[1] == 0x73 {
            return ContentStreamOperator::SetFillColorSpace;
        } else if k[0] == 0x53 && k[1] == 0x43 {
            return ContentStreamOperator::SetStrokeColor;
        } else if k[0] == 0x73 && k[1] == 0x63 {
            return ContentStreamOperator::SetFillColor;
        } else if k[0] == 0x52 && k[1] == 0x47 {
            return ContentStreamOperator::SetStrokeRGB;
        } else if k[0] == 0x72 && k[1] == 0x67 {
            return ContentStreamOperator::SetFillRGB;
        } else if k[0] == 0x44 && k[1] == 0x6F {
            return ContentStreamOperator::InvokeXObject;
        } else if k[0] == 0x73 && k[1] == 0x68 {
            return ContentStreamOperator::Shading;
        } else if k[0] == 0x4D && k[1] == 0x50 {
            return ContentStreamOperator::MarkedContentPoint;
        } else if k[0] == 0x44 && k[1] == 0x50 {
            return ContentStreamOperator::MarkedContentPointProp;
        } else if k[0] == 0x42 && k[1] == 0x58 {
            return ContentStreamOperator::BeginCompatibility;
        } else if k[0] == 0x45 && k[1] == 0x58 {
            return ContentStreamOperator::EndCompatibility;
        }
    } else if n == 3 {
        if k[0] == 0x53 && k[1] == 0x43 && k[2] == 0x4E {
            return ContentStreamOperator::SetStrokeColorN;
        } else if k[0] == 0x73 && k[1] == 0x63 && k[2] == 0x6E {
            return ContentStreamOperator::SetFillColorN;
        } else if k[0] == 0x42 && k[1] == 0x4D && k[2] == 0x43 {
            return ContentStreamOperator::BeginMarkedContent;
        } else if k[0] == 0x42 && k[1] == 0x44 && k[2] == 0x43 {
            return ContentStreamOperator::BeginMarkedContentProp;
        } else if k[0] == 0x45 && k[1] == 0x4D && k[2] == 0x43 {
            return ContentStreamOperator::EndMarkedContent;
        }
    }
    let v = vstd::slice::slice_to_vec(k);
    ContentStreamOperator::Unknown(v)
}

/// The keyword of every operator but `Unknown` and `InlineImage` reads back
/// as that operator.
pub proof fn lemma_keyword_round_trip(op: ContentStreamOperator)
    requires
        !(op is Unknown),
        !(op is InlineImage),
    ensures
        spec_known_operator(spec_keyword_bytes(op)) == Some(op),
{
}

/// The table has no other entries: a keyword it knows is the keyword of the
/// operator it gives, and that operator is neither an inline image nor
/// unknown.
#[verifier::rlimit(50)]
pub proof fn lemma_known_keyword_is_its_keyword(k: Seq<u8>)
    ensures
        spec_known_operator(k) matches Some(op) ==> {
            &&& !(op is Unknown)
            &&& !(op is InlineImage)
            &&& spec_keyword_bytes(op) == k
        },
{
    if spec_known_operator(k) is Some {
        let op = spec_known_operator(k)->0;
        assert(spec_keyword_bytes(op) =~= k);
    }
}

/// A byte string that is the keyword of no operator reads as an unknown
/// operator carrying those bytes.
pub proof fn lemma_unknown_keyword(k: Seq<u8>)
    requires
        forall|op: ContentStreamOperator| !(op is Unknown) && !(op is InlineImage) ==> #[trigger] spec_keyword_bytes(op) != k,
    ensures
        spec_operator_of(k) == OperatorView::Unknown(k),
{
    lemma_known_keyword_is_its_keyword(k);
    if spec_known_operator(k) is Some {
        let op = spec_known_operator(k)->0;
        assert(spec_keyword_bytes(op) == k);
    }
}

impl ContentStreamOperator {
    /// A name for display: the keyword, or `?` followed by the bytes of an
    /// unknown keyword read as UTF-8.
    pub fn display_name(&self) -> (r: String)
        ensures
            r@ == (match *self {
                ContentStreamOperator::Unknown(b) => seq!['?'] + lossy_utf8(b@),
                _ => ascii_chars(spec_keyword_bytes(*self)),
            }),
    {
        match self {
            ContentStreamOperator::Unknown(bytes) => {
                let tail = utf8_lossy(bytes.as_slice());
                let q = "?";
                proof {
                    reveal_strlit("?");
                }
                concat_str(q, tail.as_str())
            },
            _ => String::from_str(self.pdf_keyword()),
        }
    }
}

/// One operation of a content stream: an operator with its operands, and
/// for an inline image the bytes between `ID` and `EI`.
#[derive(Debug, Clone, PartialEq)]
pub struct ContentStreamOperation {
    pub operator: ContentStreamOperator,
    pub operands: Vec<PdfObject>,
    pub inline_data: Option<Vec<u8>>,
}

/// The value of an operation: operator, operand values and inline data.
pub type OperationView = (OperatorView, Seq<ObjectView>, Option<Seq<u8>>);

impl View for ContentStreamOperation {
    type V = (OperatorView, Seq<ObjectView>, Option<Seq<u8>>);

    open spec fn view(&self) -> (OperatorView, Seq<ObjectView>, Option<Seq<u8>>) {
        (
            self.operator@,
            Seq::new(self.operands@.len(), |i: int| self.operands@[i]@),
            match self.inline_data {
                Some(d) => Some(d@),
                None => None,
            },
        )
    }
}

impl ContentStreamOperation {
    /// An operation without inline data.
    pub fn new(operator: ContentStreamOperator, operands: Vec<PdfObject>) -> (r: ContentStreamOperation)
        ensures
            r.operator == operator,
            r.operands == operands,
            r.inline_data is None,
    {
        ContentStreamOperation { operator, operands, inline_data: None }
    }

    /// An inline image with its dictionary entries as operands and its bytes.
    pub fn inline_image(operands: Vec<PdfObject>, data: Vec<u8>) -> (r: ContentStreamOperation)
        ensures
            r.operator == ContentStreamOperator::InlineImage,
            r.operands == operands,
            r.inline_data == Some(data),
    {
        ContentStreamOperation { operator: ContentStreamOperator::InlineImage, operands, inline_data: Some(data) }
    }
}

/// A copy of an operator.
pub fn clone_operator(op: &ContentStreamOperator) -> (r: ContentStreamOperator)
    ensures
        r@ == op@,
{
    match op {
        ContentStreamOperator::BeginText => ContentStreamOperator::BeginText,
        ContentStreamOperator::EndText => ContentStreamOperator::EndText,
        ContentStreamOperator::SetCharSpacing => ContentStreamOperator::SetCharSpacing,
        ContentStreamOperator::SetWordSpacing => ContentStreamOperator::SetWordSpacing,
        ContentStreamOperator::SetHorizontalScale => ContentStreamOperator::SetHorizontalScale,
        ContentStreamOperator::SetLeading => ContentStreamOperator::SetLeading,
        ContentStreamOperator::SetFont => ContentStreamOperator::SetFont,
        ContentStreamOperator::SetRenderingMode => ContentStreamOperator::SetRenderingMode,
        ContentStreamOperator::SetTextRise => ContentStreamOperator::SetTextRise,
        ContentStreamOperator::MoveText => ContentStreamOperator::MoveText,
        ContentStreamOperator::MoveTextSetLeading => ContentStreamOperator::MoveTextSetLeading,
        ContentStreamOperator::SetTextMatrix => ContentStreamOperator::SetTextMatrix,
        ContentStreamOperator::MoveToNextLine => ContentStreamOperator::MoveToNextLine,
        ContentStreamOperator::ShowText => ContentStreamOperator::ShowText,
        ContentStreamOperator::ShowTextAdjusted => ContentStreamOperator::ShowTextAdjusted,
        ContentStreamOperator::MoveShowText => ContentStreamOperator::MoveShowText,
        ContentStreamOperator::MoveSetShowText => ContentStreamOperator::MoveSetShowText,
        ContentStreamOperator::SaveState => ContentStreamOperator::SaveState,
        ContentStreamOperator::RestoreState => ContentStreamOperator::RestoreState,
        ContentStreamOperator::ConcatMatrix => ContentStreamOperator::ConcatMatrix,
        ContentStreamOperator::SetLineWidth => ContentStreamOperator::SetLineWidth,
        ContentStreamOperator::SetLineCap => ContentStreamOperator::SetLineCap,
        ContentStreamOperator::SetLineJoin => ContentStreamOperator::SetLineJoin,
        ContentStreamOperator::SetMiterLimit => ContentStreamOperator::SetMiterLimit,
        ContentStreamOperator::SetDashPattern => ContentStreamOperator::SetDashPattern,
        ContentStreamOperator::SetFlatness => ContentStreamOperator::SetFlatness,
        ContentStreamOperator::SetGraphicsState => ContentStreamOperator::SetGraphicsState,
        ContentStreamOperator::SetRenderingIntent => ContentStreamOperator::SetRenderingIntent,
        ContentStreamOperator::MoveTo => ContentStreamOperator::MoveTo,
        ContentStreamOperator::LineTo => ContentStreamOperator::LineTo,
        ContentStreamOperator::CurveTo => ContentStreamOperator::CurveTo,
        ContentStreamOperator::CurveToV => ContentStreamOperator::CurveToV,
        ContentStreamOperator::CurveToY => ContentStreamOperator::CurveToY,
        ContentStreamOperator::ClosePath => ContentStreamOperator::ClosePath,
        ContentStreamOperator::Rect => ContentStreamOperator::Rect,
        ContentStreamOperator::Stroke => ContentStreamOperator::Stroke,
        ContentStreamOperator::CloseStroke => ContentStreamOperator::CloseStroke,
        ContentStreamOperator::Fill => ContentStreamOperator::Fill,
        ContentStreamOperator::FillObsolete => ContentStreamOperator::FillObsolete,
        ContentStreamOperator::FillEvenOdd => ContentStreamOperator::FillEvenOdd,
        ContentStreamOperator::FillStroke => ContentStreamOperator::FillStroke,
        ContentStreamOperator::FillStrokeEvenOdd => ContentStreamOperator::FillStrokeEvenOdd,
        ContentStreamOperator::CloseFillStroke => ContentStreamOperator::CloseFillStroke,
        ContentStreamOperator::CloseFillStrokeEvenOdd => ContentStreamOperator::CloseFillStrokeEvenOdd,
        ContentStreamOperator::EndPath => ContentStreamOperator::EndPath,
        ContentStreamOperator::Clip => ContentStreamOperator::Clip,
        ContentStreamOperator::ClipEvenOdd => ContentStreamOperator::ClipEvenOdd,
        ContentStreamOperator::SetStrokeColorSpace => ContentStreamOperator::SetStrokeColorSpace,
        ContentStreamOperator::SetFillColorSpace => ContentStreamOperator::SetFillColorSpace,
        ContentStreamOperator::SetStrokeColor => ContentStreamOperator::SetStrokeColor,
        ContentStreamOperator::SetStrokeColorN => ContentStreamOperator::SetStrokeColorN,
        ContentStreamOperator::SetFillColor => ContentStreamOperator::SetFillColor,
        ContentStreamOperator::SetFillColorN => ContentStreamOperator::SetFillColorN,
        ContentStreamOperator::SetStrokeGray => ContentStreamOperator::SetStrokeGray,
        ContentStreamOperator::SetFillGray => ContentStreamOperator::SetFillGray,
        ContentStreamOperator::SetStrokeRGB => ContentStreamOperator::SetStrokeRGB,
        ContentStreamOperator::SetFillRGB => ContentStreamOperator::SetFillRGB,
        ContentStreamOperator::SetStrokeCMYK => ContentStreamOperator::SetStrokeCMYK,
        ContentStreamOperator::SetFillCMYK => ContentStreamOperator::SetFillCMYK,
        ContentStreamOperator::InvokeXObject => ContentStreamOperator::InvokeXObject,
        ContentStreamOperator::Shading => ContentStreamOperator::Shading,
        ContentStreamOperator::InlineImage => ContentStreamOperator::InlineImage,
        ContentStreamOperator::MarkedContentPoint => ContentStreamOperator::MarkedContentPoint,
        ContentStreamOperator::MarkedContentPointProp => ContentStreamOperator::MarkedContentPointProp,
        ContentStreamOperator::BeginMarkedContent => ContentStreamOperator::BeginMarkedContent,
        ContentStreamOperator::BeginMarkedContentProp => ContentStreamOperator::BeginMarkedContentProp,
        ContentStreamOperator::EndMarkedContent => ContentStreamOperator::EndMarkedContent,
        ContentStreamOperator::BeginCompatibility => ContentStreamOperator::BeginCompatibility,
        ContentStreamOperator::EndCompatibility => ContentStreamOperator::EndCompatibility,
        ContentStreamOperator::Unknown(b) => ContentStreamOperator::Unknown(copy_bytes(b)),
    }
}

/// A copy of an operation.
pub fn clone_operation(op: &ContentStreamOperation) -> (r: ContentStreamOperation)
    ensures
        r@ == op@,
{
    let operator = clone_operator(&op.operator);
    let mut operands: Vec<PdfObject> = Vec::new();
    let mut i: usize = 0;
    while i < op.operands.len()
        invariant
            i <= op.operands@.len(),
            operands@.len() == i,
            forall|j: int| 0 <= j < i ==> (#[trigger] operands@[j])@ == op.operands@[j]@,
        decreases op.operands@.len() - i,
    {
        operands.push(clone_object(&op.operands[i]));
        i += 1;
    }
    let inline_data = match &op.inline_data {
        Some(d) => Some(copy_bytes(d)),
        None => None,
    };
    let r = ContentStreamOperation { operator, operands, inline_data };
    assert(r@.1 =~= op@.1);
    r
}

} // verus!
