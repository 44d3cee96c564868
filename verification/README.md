# astropi

Control of an astrophotography setup on a Raspberry Pi: an EQMod mount behind an
INDI server, a DSLR camera, plate solving, sequences of frames, an autoguider and
a web server in front of them.

`src/` is a Verus library. It holds what the setup decides and what it says: its
functions have contracts that Verus proves. Real numbers come in and go out as
text; arithmetic on them is left to the programs.

The proofs rest on what is stated, and not proved, of a few functions of the
standard library and of other crates. Each statement stands beside the call:

| Function | Where |
| --- | --- |
| `String::push`, `str::to_uppercase`, `str::to_lowercase` | `text` |
| `std::str::from_utf8` | `indi::frame` |
| `roxmltree::Document::parse` | `indi::xml` |
| `serde_json::from_str` | `json` |
| `base64::Engine::encode`, `image::codecs::jpeg::JpegEncoder::encode` | `guiding::picture` |

| Module | Contents |
| --- | --- |
| `text`, `notes`, `number`, `reals`, `sexagesimal`, `paths`, `json` | texts, numbers and file names |
| `sorting`, `textmap` | stable sorting, maps with text keys |
| `catalogue`, `lookup` | the Messier catalogue |
| `indi` | the INDI protocol: framing, state, commands, slews |
| `eqmod`, `skywatcher` | a plain INDI client, and the serial protocol of SkyWatcher mounts |
| `camera`, `capture` | taking pictures, sequences of frames, filing |
| `goto_loop`, `sequence`, `solver`, `progress` | checked slews, sequences over targets, plate solving |
| `guiding` | the stars of a frame, guide stars, the guider's session |
| `state`, `routes` | the state of the server and its answers |

What waits for a device is a machine: a step names what is to be done, and the
report on it gives the next step. Laws about whole runs are the public proof
functions whose names begin with `law_`.

`app/` holds the programs: they talk to the devices and the network, compute in
floating point, and run the machines. `tests/` holds the tests of the library.
