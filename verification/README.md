# tensaku_print

The heart of a print dialog for screenshots: where a finished image goes on a sheet of paper, and
how the dialog that places it behaves.

The library in `src/` is verified with Verus.

- `natural`, `number`, `double`, `decimal`: exact numbers, their conversion to and from the bits of
  floating point numbers, and how they are written.
- `fit`, `placement`, `sheet`: the geometry of an image on a page. `placement_laws` holds what is
  true of every placement.
- `dialog`, `controls`: the dialog as a state that events change, and what its controls show.
  `dialog_laws` holds what is true of every state and event.
- `painting`, `preview`, `job`, `picture`: the painting steps of the preview and of the printed
  page, the print job, and the copies of the image that are made for them.

Lengths are computed without rounding. A number is rounded once, where it leaves the library as
text or as a floating point number.

`app/` is the dialog itself, in GTK through relm4. It turns toolkit values into numbers, hands
events to the library and carries out what it answers.
