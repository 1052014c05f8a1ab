//! How each supported board drives its display panel in each orientation.
use vstd::prelude::*;

use crate::status::DisplayOrientation;

verus! {

/// The boards with a display.
#[derive(Clone, Copy, Debug, PartialEq, Eq, Structural)]
pub enum Board {
    /// The "cheap yellow display" board (ILI9341, 240 by 320).
    Cyd,
    /// Waveshare ESP32-C6 with a 1.47" display (ST7789, 172 by 320).
    WaveEsp32c6Lcd147,
    /// Waveshare ESP32-C6 with a 1.47" touch display (ST7789, 172 by 320).
    WaveEsp32c6Touch147,
}

/// The display controller of a panel.
#[derive(Clone, Copy, Debug, PartialEq, Eq, Structural)]
pub enum PanelModel {
    Ili9341Rgb565,
    St7789,
}

/// How the display driver is set up: the controller, the panel's size, where the
/// visible area starts in the controller's memory, the rotation, the mirroring,
/// the colour order and whether colours are inverted.
#[derive(Clone, Copy, Debug, PartialEq, Eq, Structural)]
pub struct PanelConfig {
    pub model: PanelModel,
    pub width: u16,
    pub height: u16,
    pub x_offset: i16,
    pub y_offset: i16,
    pub rotation_degrees: u16,
    pub flip_horizontal: bool,
    pub bgr: bool,
    pub inverted: bool,
}

/// The rotation of an orientation, in degrees.
pub open spec fn degrees(o: DisplayOrientation) -> u16 {
    match o {
        DisplayOrientation::Rotate0 => 0,
        DisplayOrientation::Rotate90 => 90,
        DisplayOrientation::Rotate180 => 180,
        DisplayOrientation::Rotate270 => 270,
    }
}

/// Where the visible area of a 172-pixel-wide panel starts: 34 pixels in along the
/// panel's short side, on the side that the rotation (and the mirroring) puts first.
pub open spec fn narrow_offsets(o: DisplayOrientation, mirrored: bool) -> (i16, i16) {
    let d: int = if mirrored { -34 } else { 34 };
    match o {
        DisplayOrientation::Rotate0 => (d as i16, 0),
        DisplayOrientation::Rotate90 => (0, (-d) as i16),
        DisplayOrientation::Rotate180 => ((-d) as i16, 0),
        DisplayOrientation::Rotate270 => (0, d as i16),
    }
}

/// The panel set-up of a board in an orientation.
pub open spec fn panel_spec(board: Board, o: DisplayOrientation) -> PanelConfig {
    match board {
        Board::Cyd => PanelConfig {
            model: PanelModel::Ili9341Rgb565,
            width: 240,
            height: 320,
            x_offset: 0,
            y_offset: 0,
            rotation_degrees: degrees(o),
            flip_horizontal: true,
            bgr: true,
            inverted: false,
        },
        Board::WaveEsp32c6Lcd147 => PanelConfig {
            model: PanelModel::St7789,
            width: 172,
            height: 320,
            x_offset: narrow_offsets(o, false).0,
            y_offset: narrow_offsets(o, false).1,
            rotation_degrees: degrees(o),
            flip_horizontal: false,
            bgr: false,
            inverted: true,
        },
        Board::WaveEsp32c6Touch147 => PanelConfig {
            model: PanelModel::St7789,
            width: 172,
            height: 320,
            x_offset: narrow_offsets(o, true).0,
            y_offset: narrow_offsets(o, true).1,
            rotation_degrees: degrees(o),
            flip_horizontal: true,
            bgr: true,
            inverted: false,
        },
    }
}

fn rotation(o: DisplayOrientation) -> (r: u16)
    ensures
        r == degrees(o),
{
    match o {
        DisplayOrientation::Rotate0 => 0,
        DisplayOrientation::Rotate90 => 90,
        DisplayOrientation::Rotate180 => 180,
        DisplayOrientation::Rotate270 => 270,
    }
}

fn offsets(o: DisplayOrientation, mirrored: bool) -> (r: (i16, i16))
    ensures
        r == narrow_offsets(o, mirrored),
{
    let d: i16 = if mirrored { -34 } else { 34 };
    match o {
        DisplayOrientation::Rotate0 => (d, 0),
        DisplayOrientation::Rotate90 => (0, -d),
        DisplayOrientation::Rotate180 => (-d, 0),
        DisplayOrientation::Rotate270 => (0, d),
    }
}

/// Turning a panel half way round moves its visible area to the opposite side: the
/// offsets at 180 degrees are those at 0 degrees negated, and those at 270 degrees
/// are those at 90 degrees negated, on every board.
pub proof fn lemma_half_turn_negates_offsets(board: Board)
    ensures
        panel_spec(board, DisplayOrientation::Rotate180).x_offset == -panel_spec(
            board,
            DisplayOrientation::Rotate0,
        ).x_offset,
        panel_spec(board, DisplayOrientation::Rotate180).y_offset == -panel_spec(
            board,
            DisplayOrientation::Rotate0,
        ).y_offset,
        panel_spec(board, DisplayOrientation::Rotate270).x_offset == -panel_spec(
            board,
            DisplayOrientation::Rotate90,
        ).x_offset,
        panel_spec(board, DisplayOrientation::Rotate270).y_offset == -panel_spec(
            board,
            DisplayOrientation::Rotate90,
        ).y_offset,
{
}

/// The narrow panels sit centred in the ST7789 controller's 240 columns: at 0 and
/// 180 degrees the visible area is shifted along x only, at 90 and 270 degrees along
/// y only, and always by half the columns that the panel leaves unused.
pub proof fn lemma_offset_axis_follows_rotation(board: Board, o: DisplayOrientation)
    requires
        board != Board::Cyd,
    ensures
        (o == DisplayOrientation::Rotate0 || o == DisplayOrientation::Rotate180) ==> panel_spec(board, o).y_offset == 0
            && (panel_spec(board, o).x_offset == (240 - panel_spec(board, o).width) / 2
            || panel_spec(board, o).x_offset == -((240 - panel_spec(board, o).width) / 2)),
        (o == DisplayOrientation::Rotate90 || o == DisplayOrientation::Rotate270) ==> panel_spec(board, o).x_offset == 0
            && (panel_spec(board, o).y_offset == (240 - panel_spec(board, o).width) / 2
            || panel_spec(board, o).y_offset == -((240 - panel_spec(board, o).width) / 2)),
{
}

/// The panel set-up of a board in an orientation.
pub fn panel_config(board: Board, orientation: DisplayOrientation) -> (r: PanelConfig)
    ensures
        r == panel_spec(board, orientation),
{
    match board {
        Board::Cyd => PanelConfig {
            model: PanelModel::Ili9341Rgb565,
            width: 240,
            height: 320,
            x_offset: 0,
            y_offset: 0,
            rotation_degrees: rotation(orientation),
            flip_horizontal: true,
            bgr: true,
            inverted: false,
        },
        Board::WaveEsp32c6Lcd147 => {
            let (x, y) = offsets(orientation, false);
            PanelConfig {
                model: PanelModel::St7789,
                width: 172,
                height: 320,
                x_offset: x,
                y_offset: y,
                rotation_degrees: rotation(orientation),
                flip_horizontal: false,
                bgr: false,
                inverted: true,
            }
        },
        Board::WaveEsp32c6Touch147 => {
            let (x, y) = offsets(orientation, true);
            PanelConfig {
                model: PanelModel::St7789,
                width: 172,
                height: 320,
                x_offset: x,
                y_offset: y,
                rotation_degrees: rotation(orientation),
                flip_horizontal: true,
                bgr: true,
                inverted: false,
            }
        },
    }
}

} // verus!
