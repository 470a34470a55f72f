# saddle_camera_cinematic_camera

A cinematic camera toolkit for Bevy — authored rails, weighted look targets,
shot sequencing with overlapping blends, markers, and a clean handoff to and
from the gameplay camera — whose playback, timing and camera-ownership logic
is verified with Verus.

## Layout

- `src/` — the verified library. Times are integer microseconds (`time`).
  - `config`: loop modes, easing names, blends, marker times.
  - `playback`: playback status and component, the transitions
    (play, pause, resume, restart, stop) and how visible time advances under
    play-once, loop and ping-pong.
  - `timeline`: shot starts with blend overlaps removed, sequence length, the
    ordered lifecycle/marker event list, the dominant shot, the running
    blend, event windows.
  - `runtime`: the per-rig state machine — playback commands, autoplay, the
    per-frame advance with its messages, and the per-frame solve plan
    (which shots to pose, which gameplay blend to lay over them, which blend
    completions to report). Poses are opaque to it.
  - `rig`: rig/binding/virtual-camera components and which rig drives each
    camera.
  - `rail`: segment counts and sampling choices of rails.
  - `collision`: what collision avoidance does for a rig each frame.
  - `diagnostics`: published counters.
- `app/` — the Bevy plugin: components and messages with engine derives,
  float geometry (rail sampling, look solving, pose blending, shake,
  collision avoidance), debug gizmos, and the systems that call the library.
- `tests/` — tests of the library.
