//! Attribute-name constants.
//!
//! One `&str` constant for every known DOT attribute, so callers can refer
//! to attribute keys by name rather than with a string literal.

use vstd::prelude::*;

verus! {

/// DOT attribute `area`.
pub const AREA: &'static str = "area";

/// DOT attribute `arrowhead`.
pub const ARROWHEAD: &'static str = "arrowhead";

/// DOT attribute `arrowsize`.
pub const ARROWSIZE: &'static str = "arrowsize";

/// DOT attribute `arrowtail`.
pub const ARROWTAIL: &'static str = "arrowtail";

/// DOT attribute `_background`.
pub const BACKGROUND: &'static str = "_background";

/// DOT attribute `bb`.
pub const BB: &'static str = "bb";

/// DOT attribute `beautify`.
pub const BEAUTIFY: &'static str = "beautify";

/// DOT attribute `bgcolor`.
pub const BGCOLOR: &'static str = "bgcolor";

/// DOT attribute `center`.
pub const CENTER: &'static str = "center";

/// DOT attribute `charset`.
pub const CHARSET: &'static str = "charset";

/// DOT attribute `clusterrank`.
pub const CLUSTERRANK: &'static str = "clusterrank";

/// DOT attribute `color`.
pub const COLOR: &'static str = "color";

/// DOT attribute `colorscheme`.
pub const COLORSCHEME: &'static str = "colorscheme";

/// DOT attribute `comment`.
pub const COMMENT: &'static str = "comment";

/// DOT attribute `compound`.
pub const COMPOUND: &'static str = "compound";

/// DOT attribute `concentrate`.
pub const CONCENTRATE: &'static str = "concentrate";

/// DOT attribute `constraint`.
pub const CONSTRAINT: &'static str = "constraint";

/// DOT attribute `Damping`.
pub const DAMPING: &'static str = "Damping";

/// DOT attribute `decorate`.
pub const DECORATE: &'static str = "decorate";

/// DOT attribute `defaultdist`.
pub const DEFAULTDIST: &'static str = "defaultdist";

/// DOT attribute `dim`.
pub const DIM: &'static str = "dim";

/// DOT attribute `dimen`.
pub const DIMEN: &'static str = "dimen";

/// DOT attribute `dir`.
pub const DIR: &'static str = "dir";

/// DOT attribute `diredgeconstraints`.
pub const DIREDGECONSTRAINTS: &'static str = "diredgeconstraints";

/// DOT attribute `distortion`.
pub const DISTORTION: &'static str = "distortion";

/// DOT attribute `dpi`.
pub const DPI: &'static str = "dpi";

/// DOT attribute `edgeURL`.
pub const EDGEURL: &'static str = "edgeURL";

/// DOT attribute `edgehref`.
pub const EDGEHREF: &'static str = "edgehref";

/// DOT attribute `edgetarget`.
pub const EDGETARGET: &'static str = "edgetarget";

/// DOT attribute `edgetooltip`.
pub const EDGETOOLTIP: &'static str = "edgetooltip";

/// DOT attribute `epsilon`.
pub const EPSILON: &'static str = "epsilon";

/// DOT attribute `esep`.
pub const ESEP: &'static str = "esep";

/// DOT attribute `fillcolor`.
pub const FILLCOLOR: &'static str = "fillcolor";

/// DOT attribute `fixedsize`.
pub const FIXEDSIZE: &'static str = "fixedsize";

/// DOT attribute `fontcolor`.
pub const FONTCOLOR: &'static str = "fontcolor";

/// DOT attribute `fontname`.
pub const FONTNAME: &'static str = "fontname";

/// DOT attribute `fontnames`.
pub const FONTNAMES: &'static str = "fontnames";

/// DOT attribute `fontpath`.
pub const FONTPATH: &'static str = "fontpath";

/// DOT attribute `fontsize`.
pub const FONTSIZE: &'static str = "fontsize";

/// DOT attribute `forcelabels`.
pub const FORCELABELS: &'static str = "forcelabels";

/// DOT attribute `gradientangle`.
pub const GRADIENTANGLE: &'static str = "gradientangle";

/// DOT attribute `group`.
pub const GROUP: &'static str = "group";

/// DOT attribute `headURL`.
pub const HEADURL: &'static str = "headURL";

/// DOT attribute `head_lp`.
pub const HEAD_LP: &'static str = "head_lp";

/// DOT attribute `headclip`.
pub const HEADCLIP: &'static str = "headclip";

/// DOT attribute `headhref`.
pub const HEADHREF: &'static str = "headhref";

/// DOT attribute `headlabel`.
pub const HEADLABEL: &'static str = "headlabel";

/// DOT attribute `headport`.
pub const HEADPORT: &'static str = "headport";

/// DOT attribute `headtarget`.
pub const HEADTARGET: &'static str = "headtarget";

/// DOT attribute `headtooltip`.
pub const HEADTOOLTIP: &'static str = "headtooltip";

/// DOT attribute `height`.
pub const HEIGHT: &'static str = "height";

/// DOT attribute `href`.
pub const HREF: &'static str = "href";

/// DOT attribute `image`.
pub const IMAGE: &'static str = "image";

/// DOT attribute `imagepath`.
pub const IMAGEPATH: &'static str = "imagepath";

/// DOT attribute `imagepos`.
pub const IMAGEPOS: &'static str = "imagepos";

/// DOT attribute `imagescale`.
pub const IMAGESCALE: &'static str = "imagescale";

/// DOT attribute `inputscale`.
pub const INPUTSCALE: &'static str = "inputscale";

/// DOT attribute `cluster`.
pub const ISCCLUSTER: &'static str = "cluster";

/// DOT attribute `K`.
pub const K: &'static str = "K";

/// DOT attribute `label`.
pub const LABEL: &'static str = "label";

/// DOT attribute `labelURL`.
pub const LABELURL: &'static str = "labelURL";

/// DOT attribute `label_scheme`.
pub const LABEL_SCHEME: &'static str = "label_scheme";

/// DOT attribute `labelangle`.
pub const LABELANGLE: &'static str = "labelangle";

/// DOT attribute `labeldistance`.
pub const LABELDISTANCE: &'static str = "labeldistance";

/// DOT attribute `labelfloat`.
pub const LABELFLOAT: &'static str = "labelfloat";

/// DOT attribute `labelfontcolor`.
pub const LABELFONTCOLOR: &'static str = "labelfontcolor";

/// DOT attribute `labelfontname`.
pub const LABELFONTNAME: &'static str = "labelfontname";

/// DOT attribute `labelfontsize`.
pub const LABELFONTSIZE: &'static str = "labelfontsize";

/// DOT attribute `labelhref`.
pub const LABELHREF: &'static str = "labelhref";

/// DOT attribute `labeljust`.
pub const LABELJUST: &'static str = "labeljust";

/// DOT attribute `labelloc`.
pub const LABELLOC: &'static str = "labelloc";

/// DOT attribute `labeltarget`.
pub const LABELTARGET: &'static str = "labeltarget";

/// DOT attribute `labeltooltip`.
pub const LABELTOOLTIP: &'static str = "labeltooltip";

/// DOT attribute `landscape`.
pub const LANDSCAPE: &'static str = "landscape";

/// DOT attribute `layer`.
pub const LAYER: &'static str = "layer";

/// DOT attribute `layerlistsep`.
pub const LAYERLISTSEP: &'static str = "layerlistsep";

/// DOT attribute `layers`.
pub const LAYERS: &'static str = "layers";

/// DOT attribute `layerselect`.
pub const LAYERSELECT: &'static str = "layerselect";

/// DOT attribute `layersep`.
pub const LAYERSEP: &'static str = "layersep";

/// DOT attribute `layout`.
pub const LAYOUT: &'static str = "layout";

/// DOT attribute `len`.
pub const LEN: &'static str = "len";

/// DOT attribute `levels`.
pub const LEVELS: &'static str = "levels";

/// DOT attribute `levelsgap`.
pub const LEVELSGAP: &'static str = "levelsgap";

/// DOT attribute `lhead`.
pub const LHEAD: &'static str = "lhead";

/// DOT attribute `lheight`.
pub const LHEIGHT: &'static str = "lheight";

/// DOT attribute `linelength`.
pub const LINELENGTH: &'static str = "linelength";

/// DOT attribute `lp`.
pub const LP: &'static str = "lp";

/// DOT attribute `ltail`.
pub const LTAIL: &'static str = "ltail";

/// DOT attribute `lwidth`.
pub const LWIDTH: &'static str = "lwidth";

/// DOT attribute `margin`.
pub const MARGIN: &'static str = "margin";

/// DOT attribute `maxiter`.
pub const MAXITER: &'static str = "maxiter";

/// DOT attribute `mclimit`.
pub const MCLIMIT: &'static str = "mclimit";

/// DOT attribute `mindist`.
pub const MINDIST: &'static str = "mindist";

/// DOT attribute `minlen`.
pub const MINLEN: &'static str = "minlen";

/// DOT attribute `mode`.
pub const MODE: &'static str = "mode";

/// DOT attribute `model`.
pub const MODEL: &'static str = "model";

/// DOT attribute `newrank`.
pub const NEWRANK: &'static str = "newrank";

/// DOT attribute `nodesep`.
pub const NODESEP: &'static str = "nodesep";

/// DOT attribute `nojustify`.
pub const NOJUSTIFY: &'static str = "nojustify";

/// DOT attribute `normalize`.
pub const NORMALIZE: &'static str = "normalize";

/// DOT attribute `notranslate`.
pub const NOTRANSLATE: &'static str = "notranslate";

/// DOT attribute `nslimit`.
pub const NSLIMIT: &'static str = "nslimit";

/// DOT attribute `nslimit1`.
pub const NSLIMIT1: &'static str = "nslimit1";

/// DOT attribute `oneblock`.
pub const ONEBLOCK: &'static str = "oneblock";

/// DOT attribute `ordering`.
pub const ORDERING: &'static str = "ordering";

/// DOT attribute `orientation`.
pub const ORIENTATION: &'static str = "orientation";

/// DOT attribute `outputorder`.
pub const OUTPUTORDER: &'static str = "outputorder";

/// DOT attribute `overlap`.
pub const OVERLAP: &'static str = "overlap";

/// DOT attribute `overlap_scaling`.
pub const OVERLAP_SCALING: &'static str = "overlap_scaling";

/// DOT attribute `overlap_shrink`.
pub const OVERLAP_SHRINK: &'static str = "overlap_shrink";

/// DOT attribute `pack`.
pub const PACK: &'static str = "pack";

/// DOT attribute `packmode`.
pub const PACKMODE: &'static str = "packmode";

/// DOT attribute `pad`.
pub const PAD: &'static str = "pad";

/// DOT attribute `page`.
pub const PAGE: &'static str = "page";

/// DOT attribute `pagedir`.
pub const PAGEDIR: &'static str = "pagedir";

/// DOT attribute `pencolor`.
pub const PENCOLOR: &'static str = "pencolor";

/// DOT attribute `penwidth`.
pub const PENWIDTH: &'static str = "penwidth";

/// DOT attribute `peripheries`.
pub const PERIPHERIES: &'static str = "peripheries";

/// DOT attribute `pin`.
pub const PIN: &'static str = "pin";

/// DOT attribute `pos`.
pub const POS: &'static str = "pos";

/// DOT attribute `quadtree`.
pub const QUADTREE: &'static str = "quadtree";

/// DOT attribute `quantum`.
pub const QUANTUM: &'static str = "quantum";

/// DOT attribute `rank`.
pub const RANK: &'static str = "rank";

/// DOT attribute `rankdir`.
pub const RANKDIR: &'static str = "rankdir";

/// DOT attribute `ranksep`.
pub const RANKSEP: &'static str = "ranksep";

/// DOT attribute `ratio`.
pub const RATIO: &'static str = "ratio";

/// DOT attribute `rects`.
pub const RECTS: &'static str = "rects";

/// DOT attribute `regular`.
pub const REGULAR: &'static str = "regular";

/// DOT attribute `remincross`.
pub const REMINCROSS: &'static str = "remincross";

/// DOT attribute `repulsiveforce`.
pub const REPULSIVEFORCE: &'static str = "repulsiveforce";

/// DOT attribute `resolution`.
pub const RESOLUTION: &'static str = "resolution";

/// DOT attribute `root`.
pub const ROOT: &'static str = "root";

/// DOT attribute `rotate`.
pub const ROTATE: &'static str = "rotate";

/// DOT attribute `rotation`.
pub const ROTATION: &'static str = "rotation";

/// DOT attribute `samehead`.
pub const SAMEHEAD: &'static str = "samehead";

/// DOT attribute `sametail`.
pub const SAMETAIL: &'static str = "sametail";

/// DOT attribute `samplepoints`.
pub const SAMPLEPOINTS: &'static str = "samplepoints";

/// DOT attribute `scale`.
pub const SCALE: &'static str = "scale";

/// DOT attribute `searchsize`.
pub const SEARCHSIZE: &'static str = "searchsize";

/// DOT attribute `sep`.
pub const SEP: &'static str = "sep";

/// DOT attribute `shape`.
pub const SHAPE: &'static str = "shape";

/// DOT attribute `shapefile`.
pub const SHAPEFILE: &'static str = "shapefile";

/// DOT attribute `showboxes`.
pub const SHOWBOXES: &'static str = "showboxes";

/// DOT attribute `sides`.
pub const SIDES: &'static str = "sides";

/// DOT attribute `size`.
pub const SIZE: &'static str = "size";

/// DOT attribute `skew`.
pub const SKEW: &'static str = "skew";

/// DOT attribute `smoothing`.
pub const SMOOTHING: &'static str = "smoothing";

/// DOT attribute `sortv`.
pub const SORTV: &'static str = "sortv";

/// DOT attribute `splines`.
pub const SPLINES: &'static str = "splines";

/// DOT attribute `start`.
pub const START: &'static str = "start";

/// DOT attribute `style`.
pub const STYLE: &'static str = "style";

/// DOT attribute `stylesheet`.
pub const STYLESHEET: &'static str = "stylesheet";

/// DOT attribute `class`.
pub const SVGCLASS: &'static str = "class";

/// DOT attribute `id`.
pub const SVGID: &'static str = "id";

/// DOT attribute `tailURL`.
pub const TAILURL: &'static str = "tailURL";

/// DOT attribute `tail_lp`.
pub const TAIL_LP: &'static str = "tail_lp";

/// DOT attribute `tailclip`.
pub const TAILCLIP: &'static str = "tailclip";

/// DOT attribute `tailhref`.
pub const TAILHREF: &'static str = "tailhref";

/// DOT attribute `taillabel`.
pub const TAILLABEL: &'static str = "taillabel";

/// DOT attribute `tailport`.
pub const TAILPORT: &'static str = "tailport";

/// DOT attribute `tailtarget`.
pub const TAILTARGET: &'static str = "tailtarget";

/// DOT attribute `tailtooltip`.
pub const TAILTOOLTIP: &'static str = "tailtooltip";

/// DOT attribute `target`.
pub const TARGET: &'static str = "target";

/// DOT attribute `TBbalance`.
pub const TBBALANCE: &'static str = "TBbalance";

/// DOT attribute `tooltip`.
pub const TOOLTIP: &'static str = "tooltip";

/// DOT attribute `truecolor`.
pub const TRUECOLOR: &'static str = "truecolor";

/// DOT attribute `URL`.
pub const URL: &'static str = "URL";

/// DOT attribute `vertices`.
pub const VERTICES: &'static str = "vertices";

/// DOT attribute `viewport`.
pub const VIEWPORT: &'static str = "viewport";

/// DOT attribute `voro_margin`.
pub const VORO_MARGIN: &'static str = "voro_margin";

/// DOT attribute `weight`.
pub const WEIGHT: &'static str = "weight";

/// DOT attribute `width`.
pub const WIDTH: &'static str = "width";

/// DOT attribute `xdotversion`.
pub const XDOTVERSION: &'static str = "xdotversion";

/// DOT attribute `xlabel`.
pub const XLABEL: &'static str = "xlabel";

/// DOT attribute `xlp`.
pub const XLP: &'static str = "xlp";

/// DOT attribute `z`.
pub const Z: &'static str = "z";

} // verus!