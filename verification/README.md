# thumbor

An image server in two parts. The library under `src/` holds what the server decides and computes,
and is verified with Verus. The program under `app/` is ordinary Rust around it: HTTP, files, logs.

| Module | What it states |
| --- | --- |
| `text` | trimming, numbers and tick boxes of form fields |
| `format` | which extension an upload is stored under |
| `pb` | the messages by which a client asks for editing steps, and their codes |
| `form` | the fields of the editing form, and the steps that they ask for |
| `upload` | which uploads are refused, under which names they are stored, what is answered |
| `link` | image addresses inside addresses |
| `cache` | the cache of downloaded images: what is found, what leaves |
| `raster` | images as rows of pixels, cropping and mirroring |
| `safety` | which image files the outside decoders can be given |
| `engine` | which steps an image can take, what they make of it, and how it is written out |

Public proof functions whose names begin with `law_` state what holds across calls. What is taken on
trust of other crates and of the standard library stands in `engine::foreign`, and beside the code that
needs it in `cache`, `format`, `link`, `text` and `upload`; each such item says what it claims.

The amount of a contrast step is held as the bit pattern of an IEEE 754 single. Steps that an image
cannot take (a crop beyond its bounds, a resize beyond what can be addressed) are found before they
are tried: `engine::render` reports them. A filter that interpolates works in single precision, so it
is not asked to turn one side of more than 1048576 pixels into another, nor to keep a side that it
would miss the end of (`engine::steps::can_sample`); the nearest pixel is always found.

On some malformed files the decoders panic. `safety::decodes_safely` looks for these cases in the bytes
of a file, and what it refuses gets an error of its own:

- indexed PNG images, in a file of their own or in an icon, with a palette that is no whole number of
  colours or has more than 256;
- lossless WebP images whose rows are narrowed before another change, whose distances or maps of code
  groups are too long to be counted, and frames that do not fill their canvas;
- TIFF files with a plane for each colour, with strips or tiles beyond counting, or with a JPEG image in
  several stretched channels where there is to be one;
- JPEG images, also in TIFF files, with scans of more blocks than can be counted or with samples that do
  not fit;
- Radiance files with a chain of runs, and portable bitmaps with a row, beyond counting.

A few files that a decoder would survive are refused with them: TIFF files with JPEG strips whose places
are given as texts or fractions, WebP alpha channels with sides of more than 16384 pixels, and Radiance
files whose size holds letters from outside ASCII.

An image is written out as PNG, JPEG, GIF, WebP, PNM, TIFF, TGA, BMP, ICO or QOI, where it fits into
such a file (`format::can_hold`). OpenEXR, Radiance and farbfeld have encoders that take no pixels of
four bytes; there is none for DDS, and the one for AVIF is not built in.

At run time the program reads `static/index.html` and `rust-logo.png` from its working directory, and
writes to `uploads/` and `logs/`.
