//! The shell scripts that start a runner.
use vstd::prelude::*;

verus! {

/// What a container runs between its setup and the start of the runner.
pub const INSTRUMENT_HEAD: &'static str = r#"
# The runner listener writes verbose transport diagnostics to stdout/stderr even
# when its explicit diagnostic-output flag is absent. Keep those diagnostics inside the
# container; GridOps' user-facing stream is populated exclusively from the
# secret-masked job console pages below.
runner_diagnostics=/tmp/gridops-runner-diagnostics.log
"#;

/// What a container runs from the start of the runner on: the output of jobs is
/// forwarded while they run, and the exit status is the runner's.
pub const INSTRUMENT_TAIL: &'static str = r#" >"$runner_diagnostics" 2>&1 &
runner_pid=$!
trap 'kill -TERM "$runner_pid" 2>/dev/null || true' TERM INT

# GitHub's runner writes the actual step console stream to rotating files under
# _diag/pages. Mirror every page to container stdout so GridOps can stream job
# output while it is still running, while retaining the runner's secret masking.
runner_root=${GRIDOPS_RUNNER_ROOT:-/home/runner}
forwarded_state=/tmp/gridops-forwarded-job-state
rm -rf "$forwarded_state"
mkdir -p "$forwarded_state"

flush_job_logs() {
  for job_log in "$runner_root"/_diag/pages/*.log; do
    [ -f "$job_log" ] || continue
    state_file="$forwarded_state/$(basename "$job_log").offset"
    offset=0
    if [ -f "$state_file" ]; then read -r offset < "$state_file" || offset=0; fi
    size=$(wc -c < "$job_log" 2>/dev/null) || continue
    if [ "$size" -gt "$offset" ]; then
      if [ "$offset" -eq 0 ]; then
        printf '\n[GRIDOPS JOB LOG %s]\n' "$(basename "$job_log")"
      fi
      head -c "$size" "$job_log" 2>/dev/null | tail -c "+$((offset + 1))" || true
      printf '%s\n' "$size" > "$state_file"
    fi
  done
}

(
  while kill -0 "$runner_pid" 2>/dev/null; do
    flush_job_logs
    sleep 0.1
  done
  flush_job_logs
) &
forwarder_pid=$!

set +e
wait "$runner_pid"
runner_status=$?
set -e
wait "$forwarder_pid" 2>/dev/null || true
exit "$runner_status""#;

/// The setup of a runner for one job. The credential comes over the standard
/// input.
pub const EPHEMERAL_SETUP: &'static str = r#"set -euo pipefail
IFS= read -r GRIDOPS_BOOTSTRAP_SECRET
[ -n "$GRIDOPS_BOOTSTRAP_SECRET" ]
runner_args=(--jitconfig "$GRIDOPS_BOOTSTRAP_SECRET")
unset GRIDOPS_BOOTSTRAP_SECRET"#;

/// How a runner for one job is started.
pub const EPHEMERAL_LAUNCH: &'static str = r#"/home/runner/run.sh "${runner_args[@]}""#;

/// The setup of a runner that stays: it registers itself the first time. The
/// credential comes over the standard input.
pub const PERSISTENT_SETUP: &'static str = r#"set -euo pipefail
if [ ! -f .runner ]; then
IFS= read -r GRIDOPS_BOOTSTRAP_SECRET
[ -n "$GRIDOPS_BOOTSTRAP_SECRET" ]
args=(--unattended --url "$GRIDOPS_REGISTRATION_URL" --token "$GRIDOPS_BOOTSTRAP_SECRET" --name "$GRIDOPS_RUNNER_NAME" --labels "$GRIDOPS_RUNNER_LABELS" --work _work --replace --disableupdate)
if [ -n "${GRIDOPS_RUNNER_GROUP:-}" ]; then args+=(--runnergroup "$GRIDOPS_RUNNER_GROUP"); fi
./config.sh "${args[@]}"
unset GRIDOPS_BOOTSTRAP_SECRET
fi"#;

/// How a runner that stays is started.
pub const PERSISTENT_LAUNCH: &'static str = "./run.sh";

/// What a virtual machine runs up to the directory of the runner.
pub const MACOS_HEAD: &'static str = r#"set -euo pipefail
runner_root='"#;

/// What a virtual machine runs behind the directory of the runner. The
/// credential comes over the standard input.
pub const MACOS_TAIL: &'static str = r#"'
if [ ! -x "$runner_root/run.sh" ]; then
  printf 'GridOps macOS runner image is missing %s/run.sh. Prepare the Tart base image first.\n' "$runner_root" >&2
  exit 78
fi
cd "$runner_root"
IFS= read -r GRIDOPS_BOOTSTRAP_SECRET
[ -n "$GRIDOPS_BOOTSTRAP_SECRET" ]
runner_args=(--jitconfig "$GRIDOPS_BOOTSTRAP_SECRET")
unset GRIDOPS_BOOTSTRAP_SECRET
runner_diagnostics="$runner_root/_diag/gridops-runner-diagnostics.log"
mkdir -p "$runner_root/_diag"
./run.sh "${runner_args[@]}" >"$runner_diagnostics" 2>&1 &
runner_pid=$!
trap 'kill -TERM "$runner_pid" 2>/dev/null || true' TERM INT
forwarded_state=/tmp/gridops-forwarded-job-state
rm -rf "$forwarded_state"
mkdir -p "$forwarded_state"
flush_job_logs() {
  for job_log in "$runner_root"/_diag/pages/*.log; do
    [ -f "$job_log" ] || continue
    state_file="$forwarded_state/$(basename "$job_log").offset"
    offset=0
    if [ -f "$state_file" ]; then read -r offset < "$state_file" || offset=0; fi
    size=$(wc -c < "$job_log" 2>/dev/null) || continue
    if [ "$size" -gt "$offset" ]; then
      if [ "$offset" -eq 0 ]; then printf '\n[GRIDOPS JOB LOG %s]\n' "$(basename "$job_log")"; fi
      head -c "$size" "$job_log" 2>/dev/null | tail -c "+$((offset + 1))" || true
      printf '%s\n' "$size" > "$state_file"
    fi
  done
}
(
  while kill -0 "$runner_pid" 2>/dev/null; do flush_job_logs; sleep 0.1; done
  flush_job_logs
) &
forwarder_pid=$!
set +e
wait "$runner_pid"
runner_status=$?
set -e
wait "$forwarder_pid" 2>/dev/null || true
exit "$runner_status""#;

}
