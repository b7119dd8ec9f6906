# eqvis

A real-time equalizer with a console-training user interface: a strip of up to 256
filter bands over whatever is played or captured, a graph with draggable dots, a
spectrum display, and a console mode that locks the strip to the five bands, the
±15 dB and the Q 0.5-5.0 of a mixing desk's channel EQ.

## Layout

* `src/` is the verified library. Numbers such as gains and frequencies are held as
  the bit patterns of single-precision numbers; `bits` gives the patterns their value
  and order.
  * `filter`, `audio`: filter shapes, bands, the strip and the shared state
  * `spectrum`: the sample frame, the order of the transform, the bars
  * `playback`, `stream`: file playback and the live path
  * `config`, `paths`, `text`, `devices`: the settings file and lists of devices
  * `gui`, `controls`, `display`: what the window shows and what its controls do
* `app/` is the program around it: audio devices, decoding, files on disk, drawing, and
  the floating-point arithmetic of filters, spectrum and geometry.
* `tests/` runs the library.

Functions named `law_..` state what holds of the library as a whole.

## Settings

Settings are saved to `config.txt` in `~/.config/eqvis` (or `$XDG_CONFIG_HOME/eqvis`) on
Linux, `~/Library/Application Support/eqvis` on macOS and `%APPDATA%\eqvis` on Windows.
The file may be edited by hand; missing keys fall back to the defaults:

```
theme_dark=1
idle_anim=1
peak_hold=1
console_mode=0
knob_ui=0
db_min=-60
db_max=60
vol_min=0.33333334
vol_max=3
num_bands=6
```

## Controls

Drag a dot to set gain and frequency. Over a dot, scroll turns the gain, shift + scroll
the frequency and ctrl + scroll the bandwidth.
