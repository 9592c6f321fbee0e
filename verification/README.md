# opencrosshair

A crosshair overlay for Wayland compositors, split in two:

- `src/` is the verified library (Verus). It holds the decisions and the
  arithmetic of the overlay, each with a contract:
  - `color`: hex colours (`RGB`, `RRGGBB`, `RRGGBBAA`, optional `#`,
    surrounding white space) to 8-bit RGBA, with the exact error of each
    refused input;
  - `crosshair_image`: the crosshair image, decoded (by the `image` crate)
    from the user's file contents or from the built-in PNG;
  - `layout`: row pitch and size of the buffers a rendered frame is read back
    into;
  - `geometry`: the quad that the crosshair texture is drawn on;
  - `toplevel`: which application has the focus, and whether the crosshair is
    shown over it;
  - `lifecycle`: the render-once life of the GPU resources;
  - `outputs`: the choice of the display by name.
- `app/` is the program around it: command line, Wayland connection, reading
  the image file and the GPU work, which call the library for every decision.
