# srs2dge_gui

The widget-independent logic of a small immediate-mode GUI toolkit, written
in Verus and verified.

`src/` is the verified library:

- `anim`: keyframe timelines (`Animated`), the animator state machine that
  plays them (`Animator`, `State`, `Playback`) and the choice of keyframes a
  timeline shows at a time point (`Sample`), including looping, ping-pong
  and reversed play.
- `event`: GUI events and the pointer state machines (`PointerState`, with
  and without buttons).
- `widgets`: the decisions of `Trigger` and `DragZone`: which handlers run
  for a pointer event and whether the event is blocked.
- `widget`: `Grid` (cell placement) and `Empty`.
- `style`: merging of partial styles, a sheet of named styles with used
  marks, and whitespace splitting of style lists.
- `expr`, `calc`, `val`: layout expression trees, calculation inputs and
  setting values (owned, shared or animated).
- `time`, `sync`: the clock and shared handles.

`app/` holds the floating point side: easing curves, interpolation, pixel
rectangles, size and offset calculators, the widget tree, and the glue that
calls user handlers with what the verified decisions return.

`tests/` runs the library on concrete values.
